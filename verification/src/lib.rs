//! Decoder-side logic of the Improved Multi-Band Excitation (IMBE) digital
//! voice codec: bit-field descrambling of prioritized chunks, frame parameter
//! derivation, voiced/unvoiced decisions, quantized-amplitude reconstruction,
//! bit-allocation bookkeeping, noise-band edges, and the synthesis window
//! shape, each with a verified contract.

pub mod allocs;
pub mod arith;
pub mod bands;
pub mod chunk;
pub mod consts;
pub mod decoder;
pub mod descramble;
pub mod errors;
pub mod frame;
pub mod params;
pub mod scan;
pub mod storage;
pub mod window;
