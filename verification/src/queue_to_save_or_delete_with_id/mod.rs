pub mod upsert_or_delete;
pub mod inner_or_delete_with_id;
