//! The core of a static analyzer for JavaScript modules, verified with Verus.
//!
//! - [`analyzer`] holds symbolic values, their normal form, the graph of the bindings of a
//!   program, the linker that resolves values against the graph, and the rewriters that
//!   know the objects and functions of the host.
//! - [`resolve`] classifies module specifiers by their shape.
//! - [`text`] holds what the others need to write and to cut texts.

pub mod analyzer;
pub mod resolve;
pub mod text;
