pub mod links;
pub mod merge;
pub mod api;
pub mod service;
pub mod sync;
