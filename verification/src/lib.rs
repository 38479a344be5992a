pub mod codec;
pub mod image;
pub mod session;
