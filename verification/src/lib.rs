//! Builds the binary program-metadata blob that the loader of a small
//! embedded operating system reads.
//!
//! A blob describes a program: its memory layout, the priorities and cores
//! of its threads, what it may ask of the kernel, which services it may
//! call and host, and what it may do on the filesystem. The loader takes a
//! blob at its word, so every bit, offset and length must be exact.
//!
//! - [`capability`] and [`syscalls`] pack kernel capabilities into tagged
//!   32-bit words, with the help of [`bits`].
//! - [`services`] builds the table of service names.
//! - [`layout`] and [`codec`] hold the fixed headers and the little-endian
//!   bytes of numbers.
//! - [`descriptor`] is the descriptor of a program, and [`blob`] turns it
//!   into the bytes of a blob; [`blob_layout`] proves that the headers of
//!   a blob bound its sections.
//! - [`key`] and [`der`] load the RSA key that signs a declaration
//!   container.
//! - [`text`], [`utils`] and [`error`] are shared helpers.

pub mod bits;
pub mod blob;
pub mod blob_layout;
pub mod capability;
pub mod codec;
pub mod der;
pub mod descriptor;
pub mod error;
pub mod key;
pub mod layout;
pub mod services;
pub mod syscalls;
pub mod text;
pub mod utils;
