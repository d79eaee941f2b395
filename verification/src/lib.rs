//! A thumbnail cache and image discoverer for a directory tree of pictures.
//!
//! The library decides; its caller touches the disk. Every function here takes
//! plain values (paths as strings, file contents as bytes, modification times
//! as integers) and answers with plain values, or with the next thing the
//! caller has to do on the file system.
//!
//! - [`discover`] finds the pictures under a root, one directory at a time,
//!   and lists them in ascending order;
//! - [`resolve`] leads a request for a thumbnail from the paths to the file
//!   that is ready to be served;
//! - [`paths`], [`scale`] and [`order`] hold the rules that the two go by:
//!   what an image file is, how large a thumbnail is, and which path comes
//!   first;
//! - [`codec`] is where the pictures themselves are decoded, resized and
//!   encoded.
//!
//! Paths are slash-separated strings. A relative path handed to this library
//! is joined to the root as it is: the caller has to make sure that it cannot
//! leave the root (no leading `/`, no `..` segment).

pub mod codec;
pub mod config;
pub mod discover;
pub mod listing;
pub mod order;
pub mod paths;
pub mod resolve;
pub mod scale;
pub mod text;
