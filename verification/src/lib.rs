//! A block-structured virtual filesystem inside one flat, resizable extent of
//! bytes.
//!
//! The crate is the storage layer of the filesystem: how a block is laid out
//! and aligned, how blocks are appended to the medium and given back, and how
//! a fresh medium is formatted. Every operation is specified over the bytes
//! of the medium, so that what it leaves on the medium is known byte by byte.

pub mod filesystem;
pub mod storage;
