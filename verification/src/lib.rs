//! Verified build-tooling logic for shipping a Hekate prover crate to mobile.

pub mod text;
pub mod android;
pub mod artifacts;
pub mod doctor;
pub mod ios;
pub mod manifest;
pub mod prover;
