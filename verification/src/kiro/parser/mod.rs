//! The upstream's event stream: frames, their layout, the decoder, and what
//! holds of them.

pub mod crc;
pub mod decoder;
pub mod encoder;
pub mod frame;
pub mod laws;
