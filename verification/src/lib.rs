//! A credential locker's symmetric codec: each password is sealed on its own
//! with AES-256 in CBC mode under a caller-supplied key and a fresh IV, and is
//! stored as printable text.

pub mod error;
pub mod block_mode;
pub mod armor;
pub mod entropy;
pub mod text;
pub mod crypto;
pub mod entry;
