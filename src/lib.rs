//! Arabic token classification and lexicon-assisted morphological lookup.
//!
//! Text is split into tokens (`tokenizer`), each token is classified as a
//! number, punctuation, foreign word or Arabic word, and Arabic words go
//! through a fixed cascade of normalizations (`parser`) against a lexicon
//! until one of the normalized forms is found (`analyzer`).

pub mod analyzer;
pub mod charsets;
pub mod parser;
pub mod seqops;
pub mod text;
pub mod tokenizer;
