//! Translates a parsed CDDL grammar document into equivalent declarations in a
//! target language.
//!
//! The grammar arrives as an already-parsed abstract syntax tree ([`ast`]); the
//! two backend engines ([`engines::typescript`] and [`engines::zod`]) walk the
//! tree and render either declarative type definitions or runtime
//! validator-builder expressions.  Every renderer is specified by a spec-level
//! emission function, so the text a backend produces is pinned down exactly.

pub mod ast;
pub mod emit;
pub mod engines;
pub mod occur;
pub mod strnum;
pub mod util;
