pub mod background_job;
pub mod thread_triggers;
