//! Fixed-base scalar multiplication on secp256k1 through a precomputed table
//! of multiples of the generator.
pub mod group;
pub mod lut;
pub mod vanity;
