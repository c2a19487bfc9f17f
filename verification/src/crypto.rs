//! Cryptographic capabilities of a board.

pub mod aead;
