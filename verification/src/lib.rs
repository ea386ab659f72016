//! A layered, batching 2D drawing core.
//!
//! Drawing calls are issued against a [`context::DrawContext`], which keeps a
//! save/restore stack of transforms and clips, and sorts every emitted record
//! into the opaque bucket or into the transparent bucket of the alpha layer
//! that is active at call time. At the end of a frame the context hands out a
//! list of draw commands in compositing order.
//!
//! Coordinates are integers: user space is `i32`, device space is `i64`, so
//! that moving a shape into device space is exact.

pub mod error;
pub mod geometry;
pub mod transform;
pub mod records;
pub mod mesh;
pub mod layer;
pub mod command;
pub mod state;
pub mod shape;
pub mod context;
pub mod jpeg;
pub mod image;
pub mod pipeline;
pub mod relay;
pub mod laws;
