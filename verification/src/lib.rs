//! Byte encodings of randomly drawn bit lists and bit vectors.
//!
//! A bit list holds at most `capacity` bits and a bit vector exactly
//! `capacity` bits. Both are built from a byte buffer. This crate sizes the
//! buffer that a randomness source is to fill and shapes the filled buffer
//! into an encoding without trailing zero bytes, so that a drawn bit list is
//! in the form that its constructor expects.

pub mod buffer;
pub mod encoding;
pub mod generator;
