//! A compile-time code-generation engine for data-type declarations.
//!
//! The crate works on its own model of a declaration's syntax: type
//! expressions, field metadata annotations, and token trees with source
//! positions. On that model it provides
//!
//! - a type-shape classifier that sorts each field into plain scalar,
//!   optional wrapper, or attribute-tagged accumulator form,
//! - an attribute reader that extracts string-literal values from field
//!   annotations,
//! - a builder synthesizer that plans a companion builder type with
//!   per-field setters and validated construction,
//! - a debug synthesizer that plans a formatting implementation with
//!   inferred generic bounds, and
//! - a range-expansion engine that replays a token block once per integer
//!   in a half-open range, splicing the bound identifier into literals
//!   and fused identifiers.

pub mod attrs;
pub mod builder;
pub mod builder_state;
pub mod debug_gen;
pub mod decimal;
pub mod model;
pub mod seq_expand;
pub mod shape;
