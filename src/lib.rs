//! Client side of the SRP-6a password-authenticated key exchange.
pub mod bignum;
pub mod tools;
pub mod types;
pub mod hash;
pub mod client;
pub mod agreement;
