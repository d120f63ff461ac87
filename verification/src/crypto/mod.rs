//! Crypto helpers: AES, XTEA and the SteamStub XOR stream.

pub mod aes;
pub mod xtea;

pub use xtea::{steam_drmp_pass1, steam_drmp_pass2, steam_xor};
