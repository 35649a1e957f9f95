//! A static-site build library: classifies content files by extension, plans
//! their destinations in a mirrored output tree, wraps rendered HTML fragments
//! in a document shell, and decides how each per-file outcome affects a run.

pub mod classify;
pub mod paths;
pub mod pipeline;
pub mod document;
pub mod render;
