//! Files in debugfs, and the files and file descriptors of the kernel.
//!
//! The library decides; it never calls into the kernel itself. What is to be asked of the kernel
//! comes out of it as values of [`call::Call`], and the answers of the kernel go back into it as
//! plain numbers.
//!
//! - [`file`] wraps the kernel's files and reservations of file descriptors. [`ownership`] states
//!   who owns the reference counts.
//! - [`operations`] is what a driver implements to provide a file, and [`vtable`] is how the kernel
//!   calls it.
//! - [`debugfs`] registers directories, files and symbolic links. [`tree`] keeps a directory in
//!   debugfs for as long as there is something in it.
//! - [`sample`] is a file with a fixed text, and [`module`] a module that provides it in debugfs.

pub mod call;
pub mod cstr;
pub mod debugfs;
pub mod error;
pub mod file;
pub mod flags;
pub mod io_buffer;
pub mod module;
pub mod operations;
pub mod ownership;
pub mod sample;
pub mod tree;
pub mod types;
pub mod vtable;
