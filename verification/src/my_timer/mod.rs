pub mod my_timer_tick;
pub mod my_timer;
pub mod timer_step;
