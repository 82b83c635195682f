pub mod client;
pub mod codec;
pub mod config;
pub mod dispatch;
pub mod errors;
pub mod feed;
pub mod merge;
