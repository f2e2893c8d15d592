pub mod alert;
pub mod detection;
pub mod engine;
pub mod network;
pub mod platform;
pub mod scan;
pub mod text;
