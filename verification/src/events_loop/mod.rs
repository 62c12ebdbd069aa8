pub mod repeat_iteration;
pub mod events_loop_message;
pub mod events_loop_step;
