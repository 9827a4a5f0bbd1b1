use charabia_norm::normalizer::normalize_stage;
use charabia_norm::{
    default_registry, normalize_tokens, ApostropheNormalizer, Language, Normalizer,
    NormalizerKind, Script, Token, TokenKind, TransliterateNormalizer,
};

fn token(lemma: &str, script: Script, char_end: usize, byte_end: usize) -> Token {
    Token {
        kind: TokenKind::Word,
        lemma: lemma.to_string(),
        char_start: 0,
        char_end,
        byte_start: 0,
        byte_end,
        script,
        language: None,
    }
}

fn lemmas(ts: &[Token]) -> Vec<String> {
    ts.iter().map(|t| t.lemma.clone()).collect()
}

fn spans(ts: &[Token]) -> Vec<(usize, usize)> {
    ts.iter().map(|t| (t.char_start, t.char_end)).collect()
}

#[test]
fn apostrophe_splits_and_lowercases() {
    let out = ApostropheNormalizer.normalize(token("L'Avion", Script::Latin, 7, 7));
    assert_eq!(lemmas(&out), vec!["l", "avion"]);
    assert_eq!(spans(&out), vec![(0, 1), (2, 7)]);
    assert_eq!(out[0].byte_start, 0);
    assert_eq!(out[0].byte_end, 1);
    assert_eq!(out[1].byte_start, 2);
    assert_eq!(out[1].byte_end, 7);
    for t in &out {
        assert_eq!(t.script, Script::Latin);
        assert_eq!(t.kind, TokenKind::Word);
    }
}

#[test]
fn apostrophe_lowercases_cyrillic() {
    let out = ApostropheNormalizer.normalize(token("ПаскальКейс", Script::Cyrillic, 11, 22));
    assert_eq!(lemmas(&out), vec!["паскалькейс"]);
    assert_eq!(spans(&out), vec![(0, 11)]);
    assert_eq!((out[0].byte_start, out[0].byte_end), (0, 22));
}

#[test]
fn apostrophe_offsets_follow_the_parent_span() {
    let mut t = token("a'Bc''d", Script::Latin, 17, 17);
    t.char_start = 10;
    t.byte_start = 10;
    let out = ApostropheNormalizer.normalize(t);
    assert_eq!(lemmas(&out), vec!["a", "bc", "", "d"]);
    assert_eq!(spans(&out), vec![(10, 11), (12, 14), (15, 15), (16, 17)]);
    for w in out.windows(2) {
        assert!(w[0].char_end < w[1].char_start);
        assert!(w[0].byte_end < w[1].byte_start);
    }
    for t in &out {
        assert_eq!(t.char_end - t.char_start, t.lemma.chars().count());
        assert_eq!(t.byte_end - t.byte_start, t.lemma.len());
    }
}

#[test]
fn apostrophe_byte_offsets_for_multibyte_text() {
    let out = ApostropheNormalizer.normalize(token("é'à", Script::Latin, 3, 5));
    assert_eq!(lemmas(&out), vec!["é", "à"]);
    assert_eq!(spans(&out), vec![(0, 1), (2, 3)]);
    assert_eq!((out[0].byte_start, out[0].byte_end), (0, 2));
    assert_eq!((out[1].byte_start, out[1].byte_end), (3, 5));
}

#[test]
fn apostrophe_on_empty_lemma() {
    let out = ApostropheNormalizer.normalize(token("", Script::Latin, 0, 0));
    assert_eq!(lemmas(&out), vec![""]);
    assert_eq!(spans(&out), vec![(0, 0)]);
}

#[test]
fn apostrophe_applicability() {
    assert!(ApostropheNormalizer.should_normalize(Script::Latin, None));
    assert!(ApostropheNormalizer.should_normalize(Script::Cyrillic, Some(Language::Rus)));
    assert!(!ApostropheNormalizer.should_normalize(Script::Arabic, None));
    assert!(!ApostropheNormalizer.should_normalize(Script::Other, Some(Language::Other)));
}

#[test]
fn transliterate_to_ascii() {
    let out = TransliterateNormalizer.normalize(token("Æneid", Script::Latin, 5, 6));
    assert_eq!(lemmas(&out), vec!["AEneid"]);
    assert_eq!(spans(&out), vec![(0, 5)]);
    assert_eq!((out[0].byte_start, out[0].byte_end), (0, 6));
    assert!(TransliterateNormalizer.should_normalize(Script::Latin, Some(Language::Other)));
    assert!(!TransliterateNormalizer.should_normalize(Script::Cyrillic, None));
}

#[test]
fn transliterate_is_idempotent() {
    let once = TransliterateNormalizer.normalize(token("étude", Script::Latin, 5, 6));
    assert_eq!(lemmas(&once), vec!["etude"]);
    let twice = TransliterateNormalizer.normalize(once[0].duplicate());
    assert_eq!(lemmas(&twice), vec!["etude"]);
    assert_eq!(spans(&twice), spans(&once));
}

#[test]
fn registry_order_decides_the_output() {
    let input = vec![token("L\u{2019}Avion", Script::Latin, 7, 9)];
    let forward = vec![NormalizerKind::Transliterate, NormalizerKind::Apostrophe];
    let out = normalize_tokens(&forward, input);
    assert_eq!(lemmas(&out), vec!["l", "avion"]);
    assert_eq!(spans(&out), vec![(0, 1), (2, 7)]);

    let input = vec![token("L\u{2019}Avion", Script::Latin, 7, 9)];
    let backward = vec![NormalizerKind::Apostrophe, NormalizerKind::Transliterate];
    let out = normalize_tokens(&backward, input);
    assert_eq!(lemmas(&out), vec!["l'avion"]);
}

#[test]
fn default_registry_is_idempotent() {
    let input = vec![
        token("L'Avion", Script::Latin, 7, 7),
        token("Æneid", Script::Latin, 5, 6),
        token("ПаскальКейс", Script::Cyrillic, 11, 22),
    ];
    let registry = default_registry();
    let once = normalize_tokens(&registry, input);
    assert_eq!(lemmas(&once), vec!["l", "avion", "aeneid", "паскалькейс"]);
    let again: Vec<Token> = once.iter().map(|t| t.duplicate()).collect();
    let twice = normalize_tokens(&registry, again);
    assert_eq!(lemmas(&twice), lemmas(&once));
    assert_eq!(spans(&twice), spans(&once));
}

#[test]
fn stage_keeps_order_and_skips_other_scripts() {
    let input = vec![
        token("A'B", Script::Latin, 3, 3),
        token("مرحبا", Script::Arabic, 5, 10),
        token("c'D", Script::Latin, 3, 3),
    ];
    let out = normalize_stage(&ApostropheNormalizer, &input);
    assert_eq!(lemmas(&out), vec!["a", "b", "مرحبا", "c", "d"]);
    assert_eq!(out[2].script, Script::Arabic);
}

#[test]
fn empty_registry_and_empty_stream() {
    let out = normalize_tokens(&Vec::<NormalizerKind>::new(), vec![token("X", Script::Latin, 1, 1)]);
    assert_eq!(lemmas(&out), vec!["X"]);
    let out = normalize_tokens(&default_registry(), Vec::new());
    assert!(out.is_empty());
}

#[test]
fn token_helpers() {
    let t = Token::new("word".to_string());
    assert_eq!(t.lemma(), "word");
    assert_eq!(t.char_count(), 0);
    assert_eq!(t.script, Script::Other);
    assert!(!t.is_separator());
    let mut s = token(",", Script::Other, 1, 1);
    s.kind = TokenKind::Separator(charabia_norm::SeparatorKind::Hard);
    assert!(s.is_separator());
    assert_eq!(s.separator_kind(), Some(charabia_norm::SeparatorKind::Hard));
    assert_eq!(s.byte_len(), 1);
    let d = s.duplicate();
    assert_eq!(d.lemma, ",");
    assert_eq!(d.char_end, 1);
}

#[test]
fn transliterate_drops_delete_characters() {
    let out = TransliterateNormalizer.normalize(token("a\u{7f}b", Script::Latin, 3, 3));
    assert_eq!(lemmas(&out), vec!["ab"]);
}

#[test]
fn registry_order_on_cyrillic_text_tagged_latin() {
    let forward = vec![NormalizerKind::Transliterate, NormalizerKind::Apostrophe];
    let out = normalize_tokens(&forward, vec![token("ПаскальКейс", Script::Latin, 11, 22)]);
    assert_eq!(lemmas(&out), vec!["paskal", "keis"]);

    let backward = vec![NormalizerKind::Apostrophe, NormalizerKind::Transliterate];
    let out = normalize_tokens(&backward, vec![token("ПаскальКейс", Script::Latin, 11, 22)]);
    assert_eq!(lemmas(&out), vec!["paskal'keis"]);
}
