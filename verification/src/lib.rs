//! Decoder for 4-bit IMA/DVI ADPCM audio streams.
//!
//! Packed ADPCM bytes are split into 4-bit codes by the unpacker, and the
//! decoder folds those codes through the adaptive predictor/quantizer state
//! machine, producing linear 16-bit PCM samples.

pub mod tables;
pub mod unpack;
pub mod decoder;
pub mod wave;
pub mod pcm;
pub mod laws;
