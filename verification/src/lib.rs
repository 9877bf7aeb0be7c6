//! A GPU frame graph: tasks declare which images they read and write, and the
//! library derives the dependency graph, the barriers between tasks, the
//! render-pass attachment tables and the order in which work reaches the GPU.
//!
//! - [`frame`]: a frame under construction, and what a finished frame asks
//!   of the backend.
//! - [`graph`] and [`dag`]: the task graph, kept acyclic, and its execution
//!   order.
//! - [`graphics`]: the builder that declares one subpass.
//! - [`resources`]: the images of a frame and the uses declared for them.
//! - [`renderpass`]: render passes and their attachment tables.
//! - [`renderer`]: command buffers, sort keys, and the front of a backend.
//! - [`interface`]: descriptor sets and pipeline interfaces as tables.
//! - [`blackboard`]: resources found by name.
//! - [`gl`]: the decisions of the OpenGL backend: fences and timelines,
//!   image and buffer storage, and the submission of commands.
//! - [`flags`], [`ids`], [`image`]: masks, identifiers and image shapes.

pub mod blackboard;
pub mod dag;
pub mod flags;
pub mod frame;
pub mod gl;
pub mod graph;
pub mod graphics;
pub mod ids;
pub mod image;
pub mod interface;
pub mod renderer;
pub mod renderpass;
pub mod resources;
