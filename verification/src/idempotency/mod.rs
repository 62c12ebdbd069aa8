pub mod idempotency_entry;
pub mod idempotency_cache_inner;
