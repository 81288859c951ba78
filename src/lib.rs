//! Generator of ownership-aware wrapper source for a native library, from the
//! flat declaration corpus that a binding translator produces for it.
//!
//! The pipeline runs in strict order: the lexer and the declaration extractor
//! read the corpus, the registry builder collects enumerations and entities,
//! the classifier attaches each function to one entity, the rewrite engine
//! turns raw types into wrapper types over a frozen snapshot of the registries,
//! and the emitter renders the text. `generator::generate_bt_lib` runs the
//! whole pipeline; `laws` states what holds of every run.
//!
//! `component` holds the user-data slot that plugin components built on the
//! generated wrapper keep between calls.
use vstd::prelude::*;

pub mod text;
pub mod naming;
pub mod order;
pub mod lexer;
pub mod decls;
pub mod enums;
pub mod classify;
pub mod entities;
pub mod rewrite;
pub mod emit;
pub mod generator;
pub mod laws;
pub mod component;
