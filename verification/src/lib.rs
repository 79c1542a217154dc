//! A keyed, memory-hard hash construction.
//!
//! A large pseudorandom read-only buffer (the ROM) is expanded once from a
//! secret key under one of two strategies; repeated hash evaluations then mix
//! a per-call salt with many data-dependent reads into that buffer to produce
//! a fixed-length digest.

pub mod engine;
pub mod hexcode;
pub mod mix;
pub mod rom;
pub mod sha256;

pub use engine::digest_spec;
pub use engine::hash;
pub use engine::lemma_hash_deterministic;
pub use hexcode::hex_of;
pub use rom::build_rom;
pub use rom::build_rom_twostep;
pub use rom::lemma_rom_build_deterministic;
pub use rom::lemma_two_step_degenerate;
pub use rom::rom_content;
pub use rom::Rom;
pub use rom::RomError;
pub use rom::RomGenerationType;
