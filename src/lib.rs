//! Phonemic romanization of Malayalam script ("Manglish").
//!
//! `glyphs` holds the engine and its tables, `rules` the rewriting passes and
//! what a romanization is, `sentence` the sentence capitalization, `scan` the
//! left-to-right rewriting that every pass shares, `text` the calls into std
//! and `regex`, and `laws` what holds of every romanization.
pub mod glyphs;
pub mod laws;
pub mod rules;
pub mod scan;
pub mod sentence;
pub mod text;

pub use crate::glyphs::CharacterMap;
