use vstd::prelude::*;

use crate::detection::{Language, Script};
use crate::normalizer::Normalizer;
use crate::token::{Token, TokenView};

verus! {

/// Every character of `s` is ASCII.
pub open spec fn is_ascii_seq(s: Seq<char>) -> bool {
    forall|i: int| 0 <= i < s.len() ==> (#[trigger] s[i]) as u32 <= 0x7f
}

/// Every character of `s` lies below DEL (`U+007F`).
pub open spec fn below_del(s: Seq<char>) -> bool {
    forall|i: int| 0 <= i < s.len() ==> ((#[trigger] s[i]) as u32) < 0x7f
}

/// The ASCII transliteration of a text.
pub uninterp spec fn transliteration_of(s: Seq<char>) -> Seq<char>;

/// Relies on `deunicode::deunicode`: the ASCII transliteration of the text. Its
/// result is ASCII and transliterates to itself, and a text whose characters
/// all lie below DEL (`U+007F`) comes back as it is.
#[verifier::external_body]
fn transliterate(s: &str) -> (r: String)
    ensures
        r@ == transliteration_of(s@),
        is_ascii_seq(r@),
        below_del(s@) ==> r@ == s@,
        transliteration_of(r@) == r@,
{
    deunicode::deunicode(s)
}

/// Transliterates the lemma of Latin-script tokens to ASCII.
#[derive(Debug, Clone, Copy)]
pub struct TransliterateNormalizer;

/// The token with its lemma transliterated; span and tags unchanged.
pub open spec fn transliterated(t: TokenView) -> TokenView {
    TokenView {
        kind: t.kind,
        lemma: transliteration_of(t.lemma),
        char_start: t.char_start,
        char_end: t.char_end,
        byte_start: t.byte_start,
        byte_end: t.byte_end,
        script: t.script,
        language: t.language,
    }
}

impl Normalizer for TransliterateNormalizer {
    open spec fn applies(&self, script: Script, language: Option<Language>) -> bool {
        script == Script::Latin
    }

    open spec fn normalized(&self, token: TokenView) -> Seq<TokenView> {
        seq![transliterated(token)]
    }

    proof fn lemma_keeps_tags(&self, token: TokenView) {
    }

    fn normalize(&self, token: Token) -> (r: Vec<Token>) {
        let lemma = transliterate(token.lemma.as_str());
        let t = Token {
            kind: token.kind,
            lemma,
            char_start: token.char_start,
            char_end: token.char_end,
            byte_start: token.byte_start,
            byte_end: token.byte_end,
            script: token.script,
            language: token.language,
        };
        let r = vec![t];
        assert(crate::token::views(r@) =~= seq![transliterated(token@)]);
        r
    }

    fn should_normalize(&self, script: Script, language: Option<Language>) -> (r: bool) {
        script == Script::Latin
    }
}

/// A token whose lemma transliteration leaves as it is comes out of the
/// normalizer unchanged; this holds of every lemma the normalizer produces.
pub proof fn lemma_transliterate_fixpoint(t: TokenView)
    requires
        transliteration_of(t.lemma) == t.lemma,
    ensures
        TransliterateNormalizer.normalized(t) == seq![t],
{
}

} // verus!
