pub mod route;
pub mod progress;
pub mod utils;
pub mod camera_capture;
pub mod h264;
pub mod filesystem;
pub mod transfer;
pub mod camera;
pub mod terminal;
pub mod clipboard;
pub mod transfer_flow;
pub mod dispatch;
pub mod reassembly;
pub mod remote_fs;
pub mod events;
