//! Buffered, rewindable byte streams over arbitrary media sources, and the
//! decoding of raw PCM packets read from them.

pub mod capacity;
pub mod codec;
pub mod companding;
pub mod error;
pub mod laws;
pub mod memory;
pub mod opus_setup;
pub mod pcm;
pub mod source;
pub mod stream;
pub mod view;
