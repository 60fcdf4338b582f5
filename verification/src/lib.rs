pub mod args;
pub mod boundary;
pub mod codec;
pub mod laws;
pub mod port;
pub mod ports;
pub mod registry;
pub mod session;
pub mod text;
pub mod value;
