//! Script- and language-aware token normalization.
//!
//! Tokens carry a lemma, offsets into the source text and detected tags;
//! normalizers rewrite or split them, and a pipeline threads a token stream
//! through an ordered registry of normalizers.

pub mod detection;
pub mod normalizer;
pub mod token;

pub use detection::{classify_separator, Detect, Language, Script, StrDetection};
pub use normalizer::apostrophe::ApostropheNormalizer;
pub use normalizer::transliterate::TransliterateNormalizer;
pub use normalizer::{default_registry, normalize_tokens, Normalizer, NormalizerKind};
pub use token::{SeparatorKind, Token, TokenKind};
