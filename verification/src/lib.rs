//! A verified engine for compiling and executing documents that transclude
//! external content: a tree of typed blocks is walked phase by phase, and
//! inclusion blocks resolve their sources against a stack of base
//! directories, bind call-time arguments into a shared variable
//! environment, and report diagnostics as compilation messages, while every
//! structural change is mirrored to observers as ordered patch operations.

pub mod codec;
pub mod dirs;
pub mod executor;
pub mod kernel;
pub mod laws;
pub mod patch;
pub mod phases;
pub mod schema;
pub mod text;
