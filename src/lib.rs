//! Syllable tokenizer for texts in Brahmic scripts (Telugu, Devanagari).

pub mod profile;
pub mod syllable;
pub mod converter;
pub mod vocabulary;
pub mod codec;
pub mod tokenizer;
