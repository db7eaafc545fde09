//! Verified encoding and decoding of RDP protocol data units.
pub mod palette;
pub mod dvc;
