pub mod exact_timer_interval;
pub mod my_exact_timer;
