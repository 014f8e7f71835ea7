//! A single-slot push-back layer over fallible byte streams, with an optional
//! running XOR checksum over every byte handed to the caller.

pub mod stream;
pub mod source;
pub mod pushback;
pub mod xorsum_pushback;
pub mod utils;
