//! Annotates text with morphological metadata and bilingual glosses.
//!
//! The pipeline: an [`handle::AnalyzerHandle`] owns the once-initialized
//! analyzer; its segmentation is projected into [`token::TokenData`] records
//! with a fixed-arity part-of-speech tag; each token is then enriched with the
//! glosses of a [`lexicon::Lexicon`] into a [`token::ResultToken`].
pub mod annotate;
pub mod diagnostics;
pub mod error;
pub mod handle;
pub mod lexicon;
pub mod token;
