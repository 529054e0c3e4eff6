pub mod checksum;
pub mod codec;
pub mod engine;
pub mod errors;
