//! The OpenGL backend, as far as it decides anything: what to ask of the
//! driver, and what to make of its answers. The calls themselves are made by
//! whoever owns the GL context.

pub mod buffer;
pub mod command;
pub mod image;
pub mod sync;
