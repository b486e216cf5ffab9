//! Decoding of world documents: a store of typed, cross-referencing
//! fragments, and the meshes, materials, skeletons and animations that can be
//! rebuilt from it.
//!
//! Everything here is exact: coordinates are kept as integers, dyadic
//! numbers or single-precision bit patterns, names as bytes. Turning them
//! into floats, and into an engine's axes, is left to the caller.

pub mod actor;
pub mod animation;
pub mod archive;
pub mod document;
pub mod error;
pub mod fragment;
pub mod material;
pub mod mesh;
pub mod names;
pub mod skeleton;
pub mod track;
pub mod world;
