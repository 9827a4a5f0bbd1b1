use vstd::prelude::*;

use crate::token::SeparatorKind;

verus! {

/// Languages the detector can report; `Other` stands for anything else.
#[derive(Debug, Clone, Copy, PartialEq, Eq, Structural, Hash)]
pub enum Language {
    Epo,
    Eng,
    Rus,
    Cmn,
    Spa,
    Por,
    Ita,
    Ben,
    Fra,
    Deu,
    Ukr,
    Kat,
    Ara,
    Hin,
    Jpn,
    Heb,
    Yid,
    Pol,
    Amh,
    Jav,
    Kor,
    Nob,
    Dan,
    Swe,
    Fin,
    Tur,
    Nld,
    Hun,
    Ces,
    Ell,
    Bul,
    Bel,
    Mar,
    Kan,
    Ron,
    Slv,
    Hrv,
    Srp,
    Mkd,
    Lit,
    Lav,
    Est,
    Tam,
    Vie,
    Urd,
    Tha,
    Guj,
    Uzb,
    Pan,
    Aze,
    Ind,
    Tel,
    Pes,
    Mal,
    Ori,
    Mya,
    Nep,
    Sin,
    Khm,
    Tuk,
    Aka,
    Zul,
    Sna,
    Afr,
    Lat,
    Slk,
    Cat,
    Tgl,
    Other,
}

/// Writing systems the detector can report; `Other` stands for anything else.
#[derive(Debug, Clone, Copy, PartialEq, Eq, Structural, Hash)]
pub enum Script {
    Arabic,
    Bengali,
    Cyrillic,
    Devanagari,
    Ethiopic,
    Georgian,
    Greek,
    Gujarati,
    Gurmukhi,
    Hangul,
    Hebrew,
    Hiragana,
    Kannada,
    Katakana,
    Khmer,
    Latin,
    Malayalam,
    Mandarin,
    Myanmar,
    Oriya,
    Sinhala,
    Tamil,
    Telugu,
    Thai,
    Other,
}

/// The classifier's label for each supported language (`-1` for `Other`).
pub open spec fn language_label(l: Language) -> int {
    match l {
        Language::Epo => 0,
        Language::Eng => 1,
        Language::Rus => 2,
        Language::Cmn => 3,
        Language::Spa => 4,
        Language::Por => 5,
        Language::Ita => 6,
        Language::Ben => 7,
        Language::Fra => 8,
        Language::Deu => 9,
        Language::Ukr => 10,
        Language::Kat => 11,
        Language::Ara => 12,
        Language::Hin => 13,
        Language::Jpn => 14,
        Language::Heb => 15,
        Language::Yid => 16,
        Language::Pol => 17,
        Language::Amh => 18,
        Language::Jav => 19,
        Language::Kor => 20,
        Language::Nob => 21,
        Language::Dan => 22,
        Language::Swe => 23,
        Language::Fin => 24,
        Language::Tur => 25,
        Language::Nld => 26,
        Language::Hun => 27,
        Language::Ces => 28,
        Language::Ell => 29,
        Language::Bul => 30,
        Language::Bel => 31,
        Language::Mar => 32,
        Language::Kan => 33,
        Language::Ron => 34,
        Language::Slv => 35,
        Language::Hrv => 36,
        Language::Srp => 37,
        Language::Mkd => 38,
        Language::Lit => 39,
        Language::Lav => 40,
        Language::Est => 41,
        Language::Tam => 42,
        Language::Vie => 43,
        Language::Urd => 44,
        Language::Tha => 45,
        Language::Guj => 46,
        Language::Uzb => 47,
        Language::Pan => 48,
        Language::Aze => 49,
        Language::Ind => 50,
        Language::Tel => 51,
        Language::Pes => 52,
        Language::Mal => 53,
        Language::Ori => 54,
        Language::Mya => 55,
        Language::Nep => 56,
        Language::Sin => 57,
        Language::Khm => 58,
        Language::Tuk => 59,
        Language::Aka => 60,
        Language::Zul => 61,
        Language::Sna => 62,
        Language::Afr => 63,
        Language::Lat => 64,
        Language::Slk => 65,
        Language::Cat => 66,
        Language::Tgl => 67,
        Language::Other => -1,
    }
}

/// The classifier's label for each supported script (`-1` for `Other`).
pub open spec fn script_label(s: Script) -> int {
    match s {
        Script::Arabic => 0,
        Script::Bengali => 2,
        Script::Cyrillic => 3,
        Script::Devanagari => 4,
        Script::Ethiopic => 5,
        Script::Georgian => 6,
        Script::Greek => 7,
        Script::Gujarati => 8,
        Script::Gurmukhi => 9,
        Script::Hangul => 10,
        Script::Hebrew => 11,
        Script::Hiragana => 12,
        Script::Kannada => 13,
        Script::Katakana => 14,
        Script::Khmer => 15,
        Script::Latin => 16,
        Script::Malayalam => 17,
        Script::Mandarin => 18,
        Script::Myanmar => 19,
        Script::Oriya => 20,
        Script::Sinhala => 21,
        Script::Tamil => 22,
        Script::Telugu => 23,
        Script::Thai => 24,
        Script::Other => -1,
    }
}

/// Narrows a classifier language label to the closed set; unknown labels give `Other`.
pub fn language_from_label(label: usize) -> (r: Language)
    ensures
        r != Language::Other ==> language_label(r) == label,
        r == Language::Other <==> (forall|l: Language| language_label(l) != label as int),
{
    let r = match label {
        0 => Language::Epo,
        1 => Language::Eng,
        2 => Language::Rus,
        3 => Language::Cmn,
        4 => Language::Spa,
        5 => Language::Por,
        6 => Language::Ita,
        7 => Language::Ben,
        8 => Language::Fra,
        9 => Language::Deu,
        10 => Language::Ukr,
        11 => Language::Kat,
        12 => Language::Ara,
        13 => Language::Hin,
        14 => Language::Jpn,
        15 => Language::Heb,
        16 => Language::Yid,
        17 => Language::Pol,
        18 => Language::Amh,
        19 => Language::Jav,
        20 => Language::Kor,
        21 => Language::Nob,
        22 => Language::Dan,
        23 => Language::Swe,
        24 => Language::Fin,
        25 => Language::Tur,
        26 => Language::Nld,
        27 => Language::Hun,
        28 => Language::Ces,
        29 => Language::Ell,
        30 => Language::Bul,
        31 => Language::Bel,
        32 => Language::Mar,
        33 => Language::Kan,
        34 => Language::Ron,
        35 => Language::Slv,
        36 => Language::Hrv,
        37 => Language::Srp,
        38 => Language::Mkd,
        39 => Language::Lit,
        40 => Language::Lav,
        41 => Language::Est,
        42 => Language::Tam,
        43 => Language::Vie,
        44 => Language::Urd,
        45 => Language::Tha,
        46 => Language::Guj,
        47 => Language::Uzb,
        48 => Language::Pan,
        49 => Language::Aze,
        50 => Language::Ind,
        51 => Language::Tel,
        52 => Language::Pes,
        53 => Language::Mal,
        54 => Language::Ori,
        55 => Language::Mya,
        56 => Language::Nep,
        57 => Language::Sin,
        58 => Language::Khm,
        59 => Language::Tuk,
        60 => Language::Aka,
        61 => Language::Zul,
        62 => Language::Sna,
        63 => Language::Afr,
        64 => Language::Lat,
        65 => Language::Slk,
        66 => Language::Cat,
        67 => Language::Tgl,
        _ => Language::Other,
    };
    proof {
        if r != Language::Other {
            assert(language_label(r) == label as int);
        }
    }
    r

}

/// Narrows a classifier script label to the closed set; unknown labels give `Other`.
pub fn script_from_label(label: usize) -> (r: Script)
    ensures
        r != Script::Other ==> script_label(r) == label,
        r == Script::Other <==> (forall|s: Script| script_label(s) != label as int),
{
    let r = match label {
        0 => Script::Arabic,
        2 => Script::Bengali,
        3 => Script::Cyrillic,
        4 => Script::Devanagari,
        5 => Script::Ethiopic,
        6 => Script::Georgian,
        7 => Script::Greek,
        8 => Script::Gujarati,
        9 => Script::Gurmukhi,
        10 => Script::Hangul,
        11 => Script::Hebrew,
        12 => Script::Hiragana,
        13 => Script::Kannada,
        14 => Script::Katakana,
        15 => Script::Khmer,
        16 => Script::Latin,
        17 => Script::Malayalam,
        18 => Script::Mandarin,
        19 => Script::Myanmar,
        20 => Script::Oriya,
        21 => Script::Sinhala,
        22 => Script::Tamil,
        23 => Script::Telugu,
        24 => Script::Thai,
        _ => Script::Other,
    };
    proof {
        if r != Script::Other {
            assert(script_label(r) == label as int);
        }
    }
    r

}

impl Default for Language {
    fn default() -> (r: Language)
        ensures
            r == Language::Other,
    {
        Language::Other
    }
}

impl Default for Script {
    fn default() -> (r: Script)
        ensures
            r == Script::Other,
    {
        Script::Other
    }
}

// ---------------------------------------------------------------------------
// Separator classification
// ---------------------------------------------------------------------------

/// Code points of the Cyrillic block, `Ѐ`..=`ӿ`.
pub open spec fn is_cyrillic_letter(c: char) -> bool {
    0x0400 <= c as u32 <= 0x04ff
}

/// The no-break space, which binds rather than separates.
pub open spec fn is_no_break_space(c: char) -> bool {
    c as u32 == 0x00a0
}

/// The Unicode `White_Space` code points.
pub open spec fn is_white_space(c: char) -> bool {
    let u = c as u32;
    (0x09 <= u <= 0x0d) || u == 0x20 || u == 0x85 || u == 0xa0 || u == 0x1680
        || (0x2000 <= u <= 0x200a) || u == 0x2028 || u == 0x2029 || u == 0x202f
        || u == 0x205f || u == 0x3000
}

/// Punctuation that marks a loose boundary.
pub open spec fn is_soft_punct(c: char) -> bool {
    c == '-' || c == '_' || c == '\'' || c == ':' || c == '/' || c == '\\' || c == '@'
        || c == '"' || c == '+' || c == '~' || c == '=' || c == '^' || c == '*' || c == '#'
}

/// Punctuation that marks a strong boundary.
pub open spec fn is_hard_punct(c: char) -> bool {
    c == '.' || c == ';' || c == ',' || c == '!' || c == '?' || c == '(' || c == ')'
        || c == '[' || c == ']' || c == '{' || c == '}' || c == '|'
}

/// The separator strength of `c`, given the first character of its ASCII folding.
pub open spec fn separator_of(c: char, folded: Option<char>) -> Option<SeparatorKind> {
    if is_cyrillic_letter(c) || is_no_break_space(c) {
        None
    } else if is_white_space(c) {
        Some(SeparatorKind::Soft)
    } else {
        match folded {
            None => None,
            Some(f) => if is_white_space(f) || is_soft_punct(f) {
                Some(SeparatorKind::Soft)
            } else if is_hard_punct(f) {
                Some(SeparatorKind::Hard)
            } else {
                None
            },
        }
    }
}

/// The first character of a folding, if there is one.
pub open spec fn first_char(s: Option<Seq<char>>) -> Option<char> {
    match s {
        Some(t) => if t.len() > 0 { Some(t[0]) } else { None },
        None => None,
    }
}

/// The ASCII transliteration of a single character.
pub uninterp spec fn ascii_folding_of(c: char) -> Option<Seq<char>>;

/// A printable ASCII character, from space to tilde.
pub open spec fn is_printable_ascii(c: char) -> bool {
    0x20 <= c as u32 <= 0x7e
}

/// Relies on `deunicode::deunicode_char`: the ASCII transliteration of one
/// character, or `None` where the crate's table has no entry; a printable
/// ASCII character is its own transliteration.
#[verifier::external_body]
fn fold_char(c: char) -> (r: Option<Vec<char>>)
    ensures
        match r {
            Some(v) => ascii_folding_of(c) == Some(v@),
            None => ascii_folding_of(c) is None,
        },
        is_printable_ascii(c) ==> r is Some && r.unwrap()@ == seq![c],
{
    deunicode::deunicode_char(c).map(|s| s.chars().collect())
}

/// Whether `c` is a Unicode `White_Space` code point.
pub fn is_whitespace(c: char) -> (r: bool)
    ensures
        r == is_white_space(c),
{
    let u = c as u32;
    (0x09 <= u && u <= 0x0d) || u == 0x20 || u == 0x85 || u == 0xa0 || u == 0x1680 || (0x2000
        <= u && u <= 0x200a) || u == 0x2028 || u == 0x2029 || u == 0x202f || u == 0x205f || u
        == 0x3000
}

/// Classifies `c` given the first character of its ASCII folding.
pub fn classify_folded(c: char, folded: Option<char>) -> (r: Option<SeparatorKind>)
    ensures
        r == separator_of(c, folded),
{
    let u = c as u32;
    if (0x0400 <= u && u <= 0x04ff) || u == 0x00a0 {
        return None;
    }
    if is_whitespace(c) {
        return Some(SeparatorKind::Soft);
    }
    match folded {
        None => None,
        Some(f) => {
            if is_whitespace(f) {
                Some(SeparatorKind::Soft)
            } else {
                match f {
                    '-' | '_' | '\'' | ':' | '/' | '\\' | '@' | '"' | '+' | '~' | '=' | '^' | '*'
                    | '#' => Some(SeparatorKind::Soft),
                    '.' | ';' | ',' | '!' | '?' | '(' | ')' | '[' | ']' | '{' | '}' | '|' => Some(
                        SeparatorKind::Hard,
                    ),
                    _ => None,
                }
            }
        },
    }
}

/// Classifies `c` as a soft separator, a hard separator, or no separator.
///
/// Cyrillic letters and the no-break space are never separators; whitespace is
/// a soft one; any other character is judged by its ASCII transliteration.
pub fn classify_separator(c: char) -> (r: Option<SeparatorKind>)
    ensures
        r == separator_of(c, first_char(ascii_folding_of(c))),
        is_printable_ascii(c) ==> r == separator_of(c, Some(c)),
{
    let folded = fold_char(c);
    let first = match folded {
        Some(v) => if v.len() > 0 {
            Some(v[0])
        } else {
            None
        },
        None => None,
    };
    classify_folded(c, first)
}

/// A character that is no separator, folds to none of the separator marks and is
/// no whitespace is classified as no separator.
pub proof fn lemma_unlisted_is_not_separator(c: char, folded: Option<char>)
    requires
        !is_white_space(c),
        match folded {
            Some(f) => !is_white_space(f) && !is_soft_punct(f) && !is_hard_punct(f),
            None => true,
        },
    ensures
        separator_of(c, folded) is None,
{
}

/// A Cyrillic letter is never a separator, whatever its folding.
pub proof fn lemma_cyrillic_is_not_separator(c: char, folded: Option<char>)
    requires
        is_cyrillic_letter(c),
    ensures
        separator_of(c, folded) is None,
{
}

/// Every whitespace character but the no-break space is a soft separator,
/// whatever its folding.
pub proof fn lemma_whitespace_is_soft(c: char, folded: Option<char>)
    requires
        is_white_space(c),
        !is_no_break_space(c),
    ensures
        separator_of(c, folded) == Some(SeparatorKind::Soft),
{
}

// ---------------------------------------------------------------------------
// Script and language detection
// ---------------------------------------------------------------------------

/// The classifier's script label for a text, if it finds one.
pub uninterp spec fn script_label_of(text: Seq<char>) -> Option<int>;

/// The classifier's language label for a text, if it finds one.
pub uninterp spec fn language_label_of(text: Seq<char>) -> Option<int>;

/// Relies on `whatlang::detect_script`: the main script of the text, as the
/// position of its variant in `whatlang::Script`; `None` where no character of
/// the text belongs to a known script, as for the empty text.
#[verifier::external_body]
fn raw_script_label(text: &str) -> (r: Option<usize>)
    ensures
        r matches Some(i) ==> script_label_of(text@) == Some(i as int),
        r is None ==> script_label_of(text@) is None,
        text@.len() == 0 ==> r is None,
{
    whatlang::detect_script(text).map(|s| s as usize)
}

/// Relies on `whatlang::detect_lang`: the detected language, as the
/// discriminant of its `whatlang::Lang` variant; `None` where no script is
/// found, as for the empty text.
#[verifier::external_body]
fn raw_language_label(text: &str) -> (r: Option<usize>)
    ensures
        r matches Some(i) ==> language_label_of(text@) == Some(i as int),
        r is None ==> language_label_of(text@) is None,
        text@.len() == 0 ==> r is None,
{
    whatlang::detect_lang(text).map(|l| l as usize)
}

/// The script reported for a text: the classifier's label narrowed to the
/// closed set, `Other` where it finds none.
pub open spec fn detected_script(text: Seq<char>) -> Script {
    match script_label_of(text) {
        Some(i) => if exists|s: Script| s != Script::Other && script_label(s) == i {
            choose|s: Script| s != Script::Other && script_label(s) == i
        } else {
            Script::Other
        },
        None => Script::Other,
    }
}

/// The language reported for a text: the classifier's label narrowed to the
/// closed set, `Other` where it finds none.
pub open spec fn detected_language(text: Seq<char>) -> Language {
    match language_label_of(text) {
        Some(i) => if exists|l: Language| l != Language::Other && language_label(l) == i {
            choose|l: Language| l != Language::Other && language_label(l) == i
        } else {
            Language::Other
        },
        None => Language::Other,
    }
}

/// Distinct supported scripts have distinct labels.
proof fn lemma_script_label_injective(a: Script, b: Script)
    requires
        a != Script::Other,
        b != Script::Other,
        script_label(a) == script_label(b),
    ensures
        a == b,
{
}

/// Distinct supported languages have distinct labels.
proof fn lemma_language_label_injective(a: Language, b: Language)
    requires
        a != Language::Other,
        b != Language::Other,
        language_label(a) == language_label(b),
    ensures
        a == b,
{
}

/// Detects the script of `text`; `Other` where none is found.
pub fn detect_script(text: &str) -> (r: Script)
    ensures
        r == detected_script(text@),
        text@.len() == 0 ==> r == Script::Other,
{
    match raw_script_label(text) {
        Some(i) => {
            let s = script_from_label(i);
            if s != Script::Other {
                let ghost c = choose|t: Script| t != Script::Other && script_label(t) == i;
                proof {
                    lemma_script_label_injective(s, c);
                }
            }
            s
        },
        None => Script::Other,
    }
}

/// Detects the language of `text`; `Other` where none is found.
pub fn detect_language(text: &str) -> (r: Language)
    ensures
        r == detected_language(text@),
        text@.len() == 0 ==> r == Language::Other,
{
    match raw_language_label(text) {
        Some(i) => {
            let l = language_from_label(i);
            if l != Language::Other {
                let ghost c = choose|t: Language| t != Language::Other && language_label(t) == i;
                proof {
                    lemma_language_label_injective(l, c);
                }
            }
            l
        },
        None => Language::Other,
    }
}

/// A text with its script and language, each detected at most once.
pub struct StrDetection<'a> {
    inner: &'a str,
    pub script: Option<Script>,
    pub language: Option<Language>,
}

impl<'a> StrDetection<'a> {
    /// The text whose tags are detected.
    pub closed spec fn text(&self) -> Seq<char> {
        self.inner@
    }

    /// The script remembered so far.
    pub closed spec fn cached_script(&self) -> Option<Script> {
        self.script
    }

    /// The language remembered so far.
    pub closed spec fn cached_language(&self) -> Option<Language> {
        self.language
    }

    /// A detection over `inner` with nothing detected yet.
    pub fn new(inner: &'a str) -> (r: StrDetection<'a>)
        ensures
            r.text() == inner@,
            r.cached_script() is None,
            r.cached_language() is None,
    {
        StrDetection { inner, script: None, language: None }
    }

    /// The script of the text, detected on the first call and remembered.
    pub fn script(&mut self) -> (r: Script)
        ensures
            final(self).text() == old(self).text(),
            final(self).cached_language() == old(self).cached_language(),
            final(self).cached_script() == Some(r),
            old(self).cached_script() matches Some(s) ==> r == s,
            old(self).cached_script() is None ==> r == detected_script(old(self).text()),
            old(self).cached_script() is None && old(self).text().len() == 0 ==> r == Script::Other,
    {
        match self.script {
            Some(s) => s,
            None => {
                let s = detect_script(self.inner);
                self.script = Some(s);
                s
            },
        }
    }

    /// The language of the text, detected on the first call and remembered.
    pub fn language(&mut self) -> (r: Language)
        ensures
            final(self).text() == old(self).text(),
            final(self).cached_script() == old(self).cached_script(),
            final(self).cached_language() == Some(r),
            old(self).cached_language() matches Some(l) ==> r == l,
            old(self).cached_language() is None ==> r == detected_language(old(self).text()),
            old(self).cached_language() is None && old(self).text().len() == 0 ==> r == Language::Other,
    {
        match self.language {
            Some(l) => l,
            None => {
                let l = detect_language(self.inner);
                self.language = Some(l);
                l
            },
        }
    }
}

/// Types whose text can be handed to the detector.
pub trait Detect {
    /// The text that a detection runs on.
    spec fn detect_text(&self) -> Seq<char>;

    /// A fresh detection over the text, with nothing detected yet.
    fn detect(&self) -> (r: StrDetection<'_>)
        ensures
            r.text() == self.detect_text(),
            r.cached_script() is None,
            r.cached_language() is None,
    ;
}

impl<'b> Detect for &'b str {
    open spec fn detect_text(&self) -> Seq<char> {
        (*self)@
    }

    fn detect(&self) -> (r: StrDetection<'_>) {
        StrDetection::new(*self)
    }
}

} // verus!
