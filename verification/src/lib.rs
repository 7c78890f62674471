//! The shader-pipeline core of a wireframe rendering demo: uniforms reflected
//! from shader source text, per-draw overrides staged and flushed to a device,
//! and command lists that record drawing operations for replay.

pub mod builder;
pub mod device;
pub mod helpers;
pub mod mesh;
pub mod mode;
pub mod pipeline;
pub mod reflect;
pub mod table;
pub mod text;
pub mod uniform;
