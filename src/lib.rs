//! Safe bindings between storage backends and an ext4 engine that reaches
//! them through a table of block callbacks.
//!
//! - `error`: the engine's status codes and the failure kinds they name.
//! - `path`: user paths in the engine's NUL-terminated form.
//! - `device`: the device descriptor, the block-device interface a backend
//!   implements, and the callback trampolines between the two.
//! - `backend`: block addressing and a backend kept in memory.
//! - `lifecycle`: registration under a name, mounting, unmounting.
//! - `dir`: directory entries and file types.
//! - `fs`: the decisions behind rename, recursive removal, seeking and
//!   directory cursors.
pub mod error;
pub mod path;
pub mod device;
pub mod backend;
pub mod lifecycle;
pub mod dir;
pub mod fs;
