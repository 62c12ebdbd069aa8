pub mod date_time;
pub mod binary_search;
pub mod hex;
pub mod binary_payload_builder;
pub mod background_executor;
pub mod events_loop;
pub mod my_timer;
pub mod min_key_value;
pub mod exact_timer;
pub mod queue_to_save;
pub mod queue_to_save_or_delete_with_id;
pub mod as_str;
pub mod wrapped_type;
pub mod idempotency;
pub mod linq;
pub mod keyed_entries;
