pub mod bus;
pub mod codec;
pub mod gateway;
pub mod ingest;
pub mod json;
pub mod meter;
pub mod protocol;
pub mod server;
