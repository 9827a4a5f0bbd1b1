use vstd::prelude::*;

use crate::detection::{Language, Script};

verus! {

/// Strength of a token boundary.
#[derive(Debug, Clone, Copy, PartialEq, Eq, Structural)]
pub enum SeparatorKind {
    /// A loose, word-adjacent boundary (whitespace, hyphen, apostrophe, ...).
    Soft,
    /// A strong, clause-level boundary (period, comma, brackets, ...).
    Hard,
}

/// What a token stands for in the segmented text.
#[derive(Debug, Clone, Copy, PartialEq, Eq, Structural)]
pub enum TokenKind {
    Word,
    StopWord,
    Separator(SeparatorKind),
    Unknown,
}

/// One unit of the token stream: a lemma with its span in the source text.
#[derive(Debug)]
pub struct Token {
    pub kind: TokenKind,
    pub lemma: String,
    pub char_start: usize,
    pub char_end: usize,
    pub byte_start: usize,
    pub byte_end: usize,
    pub script: Script,
    pub language: Option<Language>,
}

/// The mathematical value of a token: its lemma as a character sequence.
pub struct TokenView {
    pub kind: TokenKind,
    pub lemma: Seq<char>,
    pub char_start: int,
    pub char_end: int,
    pub byte_start: int,
    pub byte_end: int,
    pub script: Script,
    pub language: Option<Language>,
}

impl View for Token {
    type V = TokenView;

    open spec fn view(&self) -> TokenView {
        TokenView {
            kind: self.kind,
            lemma: self.lemma@,
            char_start: self.char_start as int,
            char_end: self.char_end as int,
            byte_start: self.byte_start as int,
            byte_end: self.byte_end as int,
            script: self.script,
            language: self.language,
        }
    }
}

impl TokenView {
    /// Offsets are ordered: a span never ends before it starts.
    pub open spec fn well_formed(self) -> bool {
        self.char_start <= self.char_end && self.byte_start <= self.byte_end
    }
}

/// The views of a sequence of tokens.
pub open spec fn views(ts: Seq<Token>) -> Seq<TokenView> {
    ts.map_values(|t: Token| t@)
}

impl Token {
    /// A word token over `lemma` with empty offsets and unknown tags.
    pub fn new(lemma: String) -> (r: Token)
        ensures
            r@ == (TokenView {
                kind: TokenKind::Word,
                lemma: lemma@,
                char_start: 0,
                char_end: 0,
                byte_start: 0,
                byte_end: 0,
                script: Script::Other,
                language: None,
            }),
    {
        Token {
            kind: TokenKind::Word,
            lemma,
            char_start: 0,
            char_end: 0,
            byte_start: 0,
            byte_end: 0,
            script: Script::Other,
            language: None,
        }
    }

    /// A copy of the token.
    pub fn duplicate(&self) -> (r: Token)
        ensures
            r@ == self@,
    {
        Token {
            kind: self.kind,
            lemma: self.lemma.clone(),
            char_start: self.char_start,
            char_end: self.char_end,
            byte_start: self.byte_start,
            byte_end: self.byte_end,
            script: self.script,
            language: self.language,
        }
    }

    /// The current text of the token.
    pub fn lemma(&self) -> (r: &str)
        ensures
            r@ == self.lemma@,
    {
        self.lemma.as_str()
    }

    /// Number of characters the token spans in the source text.
    pub fn char_count(&self) -> (r: usize)
        requires
            self@.well_formed(),
        ensures
            r == self.char_end - self.char_start,
    {
        self.char_end - self.char_start
    }

    /// Number of bytes the token spans in the source text.
    pub fn byte_len(&self) -> (r: usize)
        requires
            self@.well_formed(),
        ensures
            r == self.byte_end - self.byte_start,
    {
        self.byte_end - self.byte_start
    }

    /// True when the token is a separator of any strength.
    pub fn is_separator(&self) -> (r: bool)
        ensures
            r == (self.kind is Separator),
    {
        match self.kind {
            TokenKind::Separator(_) => true,
            _ => false,
        }
    }

    /// The separator strength, if the token is a separator.
    pub fn separator_kind(&self) -> (r: Option<SeparatorKind>)
        ensures
            r == (match self.kind {
                TokenKind::Separator(k) => Some(k),
                _ => None,
            }),
    {
        match self.kind {
            TokenKind::Separator(k) => Some(k),
            _ => None,
        }
    }
}

} // verus!
