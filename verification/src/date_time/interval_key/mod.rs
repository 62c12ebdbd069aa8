pub mod interval_utils;
pub mod interval_key_option;
pub mod date_time_interval;
pub mod interval_key;
pub mod laws;
