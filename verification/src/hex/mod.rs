pub mod utils;
pub mod hex_u8;
pub mod laws;
