//! Asset-to-GPU scene preparation for a real-time renderer.
//!
//! The crate takes a parsed scene document — nodes, meshes, materials,
//! animation clips and image blobs as plain values — and turns it into
//! render-ready data: it resolves the node hierarchy into world
//! transforms, assembles primitives into a uniform vertex layout with
//! documented defaults for absent attributes, samples keyframe tracks by
//! looping wall-clock time, packs all geometry of one asset into shared
//! vertex and index lists, expands embedded images to RGBA, partitions
//! packs into opaque and transparent render buckets, and stages
//! per-frame draw records with a cache that rebuilds only what animation
//! can have changed.
//!
//! Scalars are held as IEEE-754 bit patterns (`u32`): comparisons are
//! specified exactly as integer logic over the patterns, while the
//! floating-point arithmetic itself is delegated to glam behind named,
//! trusted operations.

pub mod animation;
pub mod document;
pub mod fbits;
pub mod kind;
pub mod layout;
pub mod loader;
pub mod material;
pub mod mathx;
pub mod mesh;
pub mod model;
pub mod world;
