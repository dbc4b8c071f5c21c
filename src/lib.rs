//! Conversion of Korean text between precomposed Hangul syllables and
//! sequences of compatibility jamo.
//!
//! [`decompose`] splits each syllable into its leading consonant, vowel and
//! trailing consonant; [`compose`] joins such units back into syllables by a
//! greedy longest match. [`is_korean`] tells whether a text holds a syllable.
pub mod compose;
pub mod decompose;
pub mod detect;
pub mod jamo;
pub mod laws;
pub mod syllable;
mod text;
pub mod tokens;

pub use compose::compose;
pub use decompose::decompose;
pub use detect::is_korean;
