use charabia_norm::detection::{
    classify_folded, detect_language, detect_script, is_whitespace, language_from_label,
    script_from_label,
};
use charabia_norm::{classify_separator, Detect, Language, Script, SeparatorKind, StrDetection};

#[test]
fn whitespace_is_soft() {
    for c in [' ', '\t', '\n', '\r', '\u{2003}', '\u{3000}', '\u{2028}'] {
        assert_eq!(classify_separator(c), Some(SeparatorKind::Soft), "{:?}", c);
    }
}

#[test]
fn every_whitespace_but_no_break_space_is_soft() {
    for u in 0..=0x10ffffu32 {
        if let Some(c) = char::from_u32(u) {
            if c.is_whitespace() && c != '\u{00a0}' {
                assert_eq!(classify_separator(c), Some(SeparatorKind::Soft), "{:?}", c);
            }
        }
    }
}

#[test]
fn whitespace_set_matches_std() {
    for u in 0..=0x10ffffu32 {
        if let Some(c) = char::from_u32(u) {
            assert_eq!(is_whitespace(c), c.is_whitespace(), "{:?}", c);
        }
    }
}

#[test]
fn no_break_space_is_not_separator() {
    assert_eq!(classify_separator('\u{00a0}'), None);
}

#[test]
fn cyrillic_letters_are_not_separators() {
    for u in 0x0400..=0x04ffu32 {
        let c = char::from_u32(u).unwrap();
        assert_eq!(classify_separator(c), None, "{:?}", c);
    }
    // the soft sign would fold to an apostrophe
    assert_eq!(classify_folded('ь', Some('\'')), None);
    // schwa would fold to an at-sign, the semisoft sign to a double quote
    assert_eq!(classify_separator('\u{04d9}'), None);
    assert_eq!(classify_separator('\u{048d}'), None);
    assert_eq!(classify_separator('ё'), None);
}

#[test]
fn soft_punctuation() {
    for c in ['-', '_', '\'', ':', '/', '\\', '@', '"', '+', '~', '=', '^', '*', '#'] {
        assert_eq!(classify_separator(c), Some(SeparatorKind::Soft), "{:?}", c);
    }
}

#[test]
fn hard_punctuation() {
    for c in ['.', ';', ',', '!', '?', '(', ')', '[', ']', '{', '}', '|'] {
        assert_eq!(classify_separator(c), Some(SeparatorKind::Hard), "{:?}", c);
    }
}

#[test]
fn unlisted_characters_are_not_separators() {
    for c in ['a', 'Z', '5', 'é', '北', '<', '$', '%', '&', '`'] {
        assert_eq!(classify_separator(c), None, "{:?}", c);
    }
}

#[test]
fn look_alikes_fold_to_separators() {
    // right single quotation mark folds to an apostrophe
    assert_eq!(classify_separator('\u{2019}'), Some(SeparatorKind::Soft));
    // horizontal ellipsis folds to "..."
    assert_eq!(classify_separator('\u{2026}'), Some(SeparatorKind::Hard));
}

#[test]
fn classify_folded_uses_the_folding() {
    assert_eq!(classify_folded('x', Some('-')), Some(SeparatorKind::Soft));
    assert_eq!(classify_folded('x', Some('?')), Some(SeparatorKind::Hard));
    assert_eq!(classify_folded('x', Some('a')), None);
    assert_eq!(classify_folded('x', None), None);
    assert_eq!(classify_folded(' ', None), Some(SeparatorKind::Soft));
    assert_eq!(classify_folded('\u{00a0}', Some(' ')), None);
}

#[test]
fn empty_text_detects_other() {
    let mut d = StrDetection::new("");
    assert_eq!(d.script(), Script::Other);
    assert_eq!(d.language(), Language::Other);
    assert_eq!(detect_script(""), Script::Other);
    assert_eq!(detect_language(""), Language::Other);
}

#[test]
fn punctuation_only_text_detects_other() {
    let mut d = StrDetection::new("... !!! 123");
    assert_eq!(d.script(), Script::Other);
    assert_eq!(d.language(), Language::Other);
}

#[test]
fn detects_english_latin() {
    let mut d = StrDetection::new("There is no reason not to learn Esperanto.");
    assert_eq!(d.script(), Script::Latin);
    assert_eq!(d.language(), Language::Eng);
}

#[test]
fn detects_cyrillic() {
    let mut d = StrDetection::new("Благодаря Эсперанто вы обрётете друзей по всему миру!");
    assert_eq!(d.script(), Script::Cyrillic);
}

#[test]
fn detection_is_memoized() {
    let mut d = StrDetection::new("There is no reason not to learn Esperanto.");
    assert_eq!(d.script, None);
    assert_eq!(d.language, None);
    d.script = Some(Script::Thai);
    assert_eq!(d.script(), Script::Thai);
    assert_eq!(d.language, None);
    let l = d.language();
    assert_eq!(d.language, Some(l));
    assert_eq!(d.script, Some(Script::Thai));
}

#[test]
fn detect_trait_on_str() {
    let s: &str = "hello world";
    let d = s.detect();
    assert_eq!(d.script, None);
    assert_eq!(d.language, None);
}

#[test]
fn label_narrowing() {
    assert_eq!(language_from_label(0), Language::Epo);
    assert_eq!(language_from_label(1), Language::Eng);
    assert_eq!(language_from_label(67), Language::Tgl);
    assert_eq!(language_from_label(68), Language::Other);
    assert_eq!(script_from_label(0), Script::Arabic);
    assert_eq!(script_from_label(1), Script::Other);
    assert_eq!(script_from_label(16), Script::Latin);
    assert_eq!(script_from_label(24), Script::Thai);
    assert_eq!(script_from_label(25), Script::Other);
}

#[test]
fn defaults_are_other() {
    assert_eq!(Language::default(), Language::Other);
    assert_eq!(Script::default(), Script::Other);
}
