//! Schema references that are compiled when they are first used.
//!
//! A schema may refer to other places in its document, and to itself. The
//! compiler does not follow a reference: it makes a validator that holds the
//! target's URL. The first instance that reaches the validator has the
//! target resolved and compiled; the compiled target is kept and serves
//! every later instance.
//!
//! - [`json`], [`paths`], [`pointer`]: documents, paths and pointers.
//! - [`error`]: what can go wrong, and the violations that are reported.
//! - [`location`], [`shared`]: URLs and shared handles.
//! - [`resolver`], [`context`], [`compile`]: finding and compiling schemas.
//! - [`node`], [`reference`]: compiled schemas and references.
//! - [`semantics`], [`laws`]: what validators mean, and what holds of them.
pub mod compile;
pub mod context;
pub mod error;
pub mod json;
pub mod laws;
pub mod location;
pub mod node;
pub mod paths;
pub mod pointer;
pub mod reference;
pub mod resolver;
pub mod semantics;
pub mod shared;
