pub mod payloads;
pub mod frames;
pub mod control;
pub mod version;
