use vstd::prelude::*;

use crate::detection::{Language, Script};
use crate::normalizer::Normalizer;
use crate::token::{views, Token, TokenView};

verus! {

/// The lowercase form of a text.
pub uninterp spec fn lowercase_of(s: Seq<char>) -> Seq<char>;

/// Relies on `str::to_lowercase`: the lowercase form of the text, as characters.
#[verifier::external_body]
fn lowercase_chars(s: &str) -> (r: Vec<char>)
    ensures
        r@ == lowercase_of(s@),
{
    s.to_lowercase().chars().collect()
}

/// Relies on `String::from_iter`: the string of the given characters.
#[verifier::external_body]
fn string_of(v: &Vec<char>) -> (r: String)
    ensures
        r@ == v@,
{
    String::from_iter(v.iter())
}

/// Number of bytes that UTF-8 spends on `c`.
pub open spec fn utf8_width(c: char) -> int {
    let u = c as u32;
    if u < 0x80 {
        1
    } else if u < 0x800 {
        2
    } else if u < 0x10000 {
        3
    } else {
        4
    }
}

/// Number of bytes of the UTF-8 encoding of `s`.
pub open spec fn utf8_len(s: Seq<char>) -> int
    decreases s.len(),
{
    if s.len() == 0 {
        0
    } else {
        utf8_len(s.drop_last()) + utf8_width(s.last())
    }
}

/// Number of bytes that UTF-8 spends on `c`.
pub fn char_width(c: char) -> (r: usize)
    ensures
        r == utf8_width(c),
{
    let u = c as u32;
    if u < 0x80 {
        1
    } else if u < 0x800 {
        2
    } else if u < 0x10000 {
        3
    } else {
        4
    }
}

/// Splitting `s` at its apostrophes, read left to right: the pieces closed by
/// an apostrophe, each with the position where it starts, and the open piece
/// after the last apostrophe.
pub open spec fn split_scan(s: Seq<char>) -> (Seq<(Seq<char>, int)>, Seq<char>)
    decreases s.len(),
{
    if s.len() == 0 {
        (seq![], seq![])
    } else {
        let (done, cur) = split_scan(s.drop_last());
        if s.last() == '\'' {
            (done.push((cur, s.len() - 1 - cur.len())), seq![])
        } else {
            (done, cur.push(s.last()))
        }
    }
}

/// The pieces of `s` between apostrophes, each with its start position.
pub open spec fn apostrophe_pieces(s: Seq<char>) -> Seq<(Seq<char>, int)> {
    let (done, cur) = split_scan(s);
    done.push((cur, s.len() - cur.len()))
}

/// The sub-token for the piece `seg` starting at position `p` of the lowered
/// lemma `s` of `t`: its span is re-derived inside the span of `t`.
pub open spec fn piece_token(t: TokenView, s: Seq<char>, seg: Seq<char>, p: int) -> TokenView {
    TokenView {
        kind: t.kind,
        lemma: seg,
        char_start: t.char_start + p,
        char_end: t.char_start + p + seg.len(),
        byte_start: t.byte_start + utf8_len(s.take(p)),
        byte_end: t.byte_start + utf8_len(s.take(p + seg.len())),
        script: t.script,
        language: t.language,
    }
}

/// The offsets of every sub-token fit in a `usize`.
pub open spec fn offsets_fit(t: TokenView, s: Seq<char>) -> bool {
    t.char_start + s.len() <= usize::MAX && t.byte_start + 4 * s.len() <= usize::MAX
}

/// The tokens for the pieces of the lowered lemma `s` of `t`.
pub open spec fn pieces_tokens(t: TokenView, s: Seq<char>, pcs: Seq<(Seq<char>, int)>) -> Seq<
    TokenView,
> {
    pcs.map_values(|pc: (Seq<char>, int)| piece_token(t, s, pc.0, pc.1))
}

/// What the apostrophe normalizer makes of a token: its lemma lowercased and
/// split at each apostrophe, one sub-token per piece, the apostrophes dropped.
/// Where the offsets would not fit a `usize`, the lowered token unsplit.
pub open spec fn apostrophe_split(t: TokenView) -> Seq<TokenView> {
    let s = lowercase_of(t.lemma);
    if offsets_fit(t, s) {
        pieces_tokens(t, s, apostrophe_pieces(s))
    } else {
        seq![
            TokenView {
                kind: t.kind,
                lemma: s,
                char_start: t.char_start,
                char_end: t.char_end,
                byte_start: t.byte_start,
                byte_end: t.byte_end,
                script: t.script,
                language: t.language,
            },
        ]
    }
}

/// Lowercases tokens and splits them at apostrophes (`l'avion` gives `l` and
/// `avion`), for Latin and Cyrillic scripts.
#[derive(Debug, Clone, Copy)]
pub struct ApostropheNormalizer;

impl Normalizer for ApostropheNormalizer {
    open spec fn applies(&self, script: Script, language: Option<Language>) -> bool {
        script == Script::Latin || script == Script::Cyrillic
    }

    open spec fn normalized(&self, token: TokenView) -> Seq<TokenView> {
        apostrophe_split(token)
    }

    proof fn lemma_keeps_tags(&self, token: TokenView) {
    }

    fn normalize(&self, token: Token) -> (r: Vec<Token>) {
        let s = lowercase_chars(token.lemma.as_str());
        let n = s.len();
        if n > usize::MAX - token.char_start || n > (usize::MAX - token.byte_start) / 4 {
            let lemma = string_of(&s);
            let t = Token {
                kind: token.kind,
                lemma,
                char_start: token.char_start,
                char_end: token.char_end,
                byte_start: token.byte_start,
                byte_end: token.byte_end,
                script: token.script,
                language: token.language,
            };
            let r = vec![t];
            assert(views(r@) =~= apostrophe_split(token@));
            return r;
        }
        let ghost tv = token@;
        let ghost sv = s@;
        let mut out: Vec<Token> = Vec::new();
        let mut cur: Vec<char> = Vec::new();
        let mut cur_start: usize = 0;
        let mut cur_byte: usize = 0;
        let mut bytes: usize = 0;
        let mut i: usize = 0;
        while i < n
            invariant
                n == s.len(),
                sv == s@,
                tv == token@,
                sv == lowercase_of(tv.lemma),
                offsets_fit(tv, sv),
                i <= n,
                cur_start + cur@.len() == i,
                views(out@) == pieces_tokens(tv, sv, split_scan(sv.take(i as int)).0),
                cur@ == split_scan(sv.take(i as int)).1,
                bytes == utf8_len(sv.take(i as int)),
                bytes <= 4 * i,
                cur_byte == utf8_len(sv.take(cur_start as int)),
                cur_byte <= bytes,
            decreases n - i,
        {
            let c = s[i];
            proof {
                assert(sv.take(i + 1).drop_last() =~= sv.take(i as int));
                assert(sv.take(i + 1).last() == c);
            }
            if c == '\'' {
                let ghost before = out@;
                let lemma = string_of(&cur);
                let t = Token {
                    kind: token.kind,
                    lemma,
                    char_start: token.char_start + cur_start,
                    char_end: token.char_start + cur_start + cur.len(),
                    byte_start: token.byte_start + cur_byte,
                    byte_end: token.byte_start + bytes,
                    script: token.script,
                    language: token.language,
                };
                out.push(t);
                proof {
                    assert(views(out@) =~= views(before).push(t@));
                    let pcs = split_scan(sv.take(i as int)).0;
                    assert(pieces_tokens(tv, sv, pcs.push((cur@, cur_start as int)))
                        =~= pieces_tokens(tv, sv, pcs).push(piece_token(tv, sv, cur@, cur_start as int)));
                    assert(cur_start + cur@.len() == i);
                }
                cur = Vec::new();
                cur_start = i + 1;
                cur_byte = bytes + 1;
            } else {
                cur.push(c);
            }
            bytes = bytes + char_width(c);
            i = i + 1;
        }
        assert(sv.take(i as int) =~= sv);
        let ghost before = out@;
        let lemma = string_of(&cur);
        let t = Token {
            kind: token.kind,
            lemma,
            char_start: token.char_start + cur_start,
            char_end: token.char_start + cur_start + cur.len(),
            byte_start: token.byte_start + cur_byte,
            byte_end: token.byte_start + bytes,
            script: token.script,
            language: token.language,
        };
        out.push(t);
        proof {
            assert(views(out@) =~= views(before).push(t@));
            let pcs = split_scan(sv).0;
            assert(pieces_tokens(tv, sv, pcs.push((cur@, cur_start as int))) =~= pieces_tokens(
                tv,
                sv,
                pcs,
            ).push(piece_token(tv, sv, cur@, cur_start as int)));
        }
        out
    }

    fn should_normalize(&self, script: Script, language: Option<Language>) -> (r: bool) {
        script == Script::Latin || script == Script::Cyrillic
    }
}

/// `s` holds no apostrophe.
pub open spec fn no_apostrophe(s: Seq<char>) -> bool {
    forall|j: int| 0 <= j < s.len() ==> #[trigger] s[j] != '\''
}

/// The structure of a left-to-right split: each closed piece is the text
/// between two apostrophes, the pieces follow one another with one apostrophe
/// between them, and the open piece runs to the end.
proof fn lemma_split_scan(s: Seq<char>)
    ensures
        ({
            let (done, cur) = split_scan(s);
            &&& cur.len() <= s.len()
            &&& cur == s.subrange(s.len() - cur.len(), s.len() as int)
            &&& no_apostrophe(cur)
            &&& forall|k: int|
                0 <= k < done.len() ==> {
                    &&& 0 <= (#[trigger] done[k]).1
                    &&& done[k].1 + done[k].0.len() < s.len()
                    &&& done[k].0 == s.subrange(done[k].1, done[k].1 + done[k].0.len())
                    &&& no_apostrophe(done[k].0)
                }
            &&& forall|k: int|
                0 <= k < done.len() - 1 ==> (#[trigger] done[k]).1 + done[k].0.len() + 1 == done[k
                    + 1].1
            &&& done.len() > 0 ==> done[0].1 == 0 && done.last().1 + done.last().0.len() + 1
                == s.len() - cur.len()
            &&& done.len() == 0 ==> cur.len() == s.len()
        }),
    decreases s.len(),
{
    if s.len() > 0 {
        let p = s.drop_last();
        lemma_split_scan(p);
        let (done0, cur0) = split_scan(p);
        let (done, cur) = split_scan(s);
        assert forall|a: int, b: int| 0 <= a <= b <= p.len() implies p.subrange(a, b) == s.subrange(
            a,
            b,
        ) by {
            assert(p.subrange(a, b) =~= s.subrange(a, b));
        }
        if s.last() == '\'' {
            assert(done == done0.push((cur0, s.len() - 1 - cur0.len())));
            assert(cur =~= s.subrange(s.len() as int, s.len() as int));
        } else {
            assert(cur =~= s.subrange(s.len() - cur.len(), s.len() as int));
        }
    }
}

/// The pieces of `s`: the first starts at 0, each next one one position past
/// the end of the one before, the last ends at the end of `s`; each is the
/// text of `s` over its span and holds no apostrophe.
proof fn lemma_pieces(s: Seq<char>)
    ensures
        ({
            let pcs = apostrophe_pieces(s);
            &&& pcs.len() >= 1
            &&& pcs[0].1 == 0
            &&& pcs.last().1 + pcs.last().0.len() == s.len()
            &&& forall|k: int|
                0 <= k < pcs.len() ==> {
                    &&& 0 <= (#[trigger] pcs[k]).1
                    &&& pcs[k].1 + pcs[k].0.len() <= s.len()
                    &&& pcs[k].0 == s.subrange(pcs[k].1, pcs[k].1 + pcs[k].0.len())
                    &&& no_apostrophe(pcs[k].0)
                }
            &&& forall|k: int|
                0 <= k < pcs.len() - 1 ==> (#[trigger] pcs[k]).1 + pcs[k].0.len() + 1 == pcs[k
                    + 1].1
        }),
{
    lemma_split_scan(s);
    let (done, cur) = split_scan(s);
    let pcs = apostrophe_pieces(s);
    assert(pcs == done.push((cur, s.len() - cur.len())));
    assert forall|k: int| 0 <= k < pcs.len() - 1 implies (#[trigger] pcs[k]).1 + pcs[k].0.len()
        + 1 == pcs[k + 1].1 by {
        if k < done.len() - 1 {
            assert(pcs[k] == done[k] && pcs[k + 1] == done[k + 1]);
        } else {
            assert(pcs[k] == done.last());
        }
    }
}

/// Each UTF-8 encoded character takes one to four bytes.
proof fn lemma_utf8_len_bounds(s: Seq<char>)
    ensures
        s.len() <= utf8_len(s) <= 4 * s.len(),
    decreases s.len(),
{
    if s.len() > 0 {
        lemma_utf8_len_bounds(s.drop_last());
    }
}

/// The encoding of a concatenation is the concatenation of the encodings.
proof fn lemma_utf8_len_concat(a: Seq<char>, b: Seq<char>)
    ensures
        utf8_len(a + b) == utf8_len(a) + utf8_len(b),
    decreases b.len(),
{
    if b.len() == 0 {
        assert(a + b =~= a);
    } else {
        lemma_utf8_len_concat(a, b.drop_last());
        assert((a + b).drop_last() =~= a + b.drop_last());
    }
}

/// The byte length of the part of `s` between positions `p` and `q`.
proof fn lemma_utf8_len_split(s: Seq<char>, p: int, q: int)
    requires
        0 <= p <= q <= s.len(),
    ensures
        utf8_len(s.take(q)) == utf8_len(s.take(p)) + utf8_len(s.subrange(p, q)),
        s.subrange(p, q).len() <= utf8_len(s.subrange(p, q)) <= 4 * (q - p),
{
    assert(s.take(q) =~= s.take(p) + s.subrange(p, q));
    lemma_utf8_len_concat(s.take(p), s.subrange(p, q));
    lemma_utf8_len_bounds(s.subrange(p, q));
}

/// Offsets of a split token: every sub-token spans as many characters as its
/// lemma holds and is well formed, the first starts where the token starts,
/// and each next sub-token starts strictly after the one before ends, so the
/// spans increase and do not overlap.
pub proof fn lemma_split_offsets(t: TokenView)
    requires
        offsets_fit(t, lowercase_of(t.lemma)),
    ensures
        ({
            let r = apostrophe_split(t);
            &&& r.len() >= 1
            &&& r[0].char_start == t.char_start
            &&& r[0].byte_start == t.byte_start
            &&& forall|k: int|
                0 <= k < r.len() ==> {
                    &&& (#[trigger] r[k]).char_end - r[k].char_start == r[k].lemma.len()
                    &&& r[k].well_formed()
                }
            &&& forall|k: int|
                0 <= k < r.len() - 1 ==> {
                    &&& (#[trigger] r[k]).char_end < r[k + 1].char_start
                    &&& r[k].byte_end < r[k + 1].byte_start
                }
        }),
{
    let s = lowercase_of(t.lemma);
    let pcs = apostrophe_pieces(s);
    let r = apostrophe_split(t);
    lemma_pieces(s);
    assert(s.take(0) =~= seq![]);
    assert forall|k: int| 0 <= k < r.len() implies (#[trigger] r[k]).char_end - r[k].char_start
        == r[k].lemma.len() && r[k].well_formed() by {
        assert(r[k] == piece_token(t, s, pcs[k].0, pcs[k].1));
        lemma_utf8_len_split(s, pcs[k].1, pcs[k].1 + pcs[k].0.len());
    }
    assert forall|k: int| 0 <= k < r.len() - 1 implies (#[trigger] r[k]).char_end < r[k
        + 1].char_start && r[k].byte_end < r[k + 1].byte_start by {
        assert(r[k] == piece_token(t, s, pcs[k].0, pcs[k].1));
        assert(r[k + 1] == piece_token(t, s, pcs[k + 1].0, pcs[k + 1].1));
        let e = pcs[k].1 + pcs[k].0.len();
        lemma_utf8_len_split(s, e, e + 1);
    }
}

/// A text without apostrophes is one open piece.
proof fn lemma_split_scan_plain(s: Seq<char>)
    requires
        no_apostrophe(s),
    ensures
        split_scan(s) == (Seq::<(Seq<char>, int)>::empty(), s),
    decreases s.len(),
{
    if s.len() > 0 {
        let p = s.drop_last();
        assert(no_apostrophe(p));
        lemma_split_scan_plain(p);
        assert(s.last() == s[s.len() - 1]);
        assert(p.push(s.last()) =~= s);
    } else {
        assert(s =~= seq![]);
    }
}

/// Splitting a sub-token again changes nothing: a sub-token whose lemma
/// lowercasing leaves as it is comes out of the normalizer unchanged.
pub proof fn lemma_split_idempotent(t: TokenView, k: int)
    requires
        offsets_fit(t, lowercase_of(t.lemma)),
        0 <= k < apostrophe_split(t).len(),
        lowercase_of(apostrophe_split(t)[k].lemma) == apostrophe_split(t)[k].lemma,
    ensures
        apostrophe_split(apostrophe_split(t)[k]) == seq![apostrophe_split(t)[k]],
{
    let s = lowercase_of(t.lemma);
    let pcs = apostrophe_pieces(s);
    lemma_pieces(s);
    let u = apostrophe_split(t)[k];
    let seg = pcs[k].0;
    let p = pcs[k].1;
    assert(u == piece_token(t, s, seg, p));
    lemma_split_scan_plain(seg);
    lemma_utf8_len_split(s, p, p + seg.len());
    lemma_utf8_len_bounds(s.take(p));
    assert(seg.take(0) =~= seq![]);
    assert(seg.take(seg.len() as int) =~= seg);
    assert(offsets_fit(u, seg));
    let pu = apostrophe_pieces(seg);
    assert(pu =~= seq![(seg, 0int)]);
    assert(piece_token(u, seg, seg, 0) == u);
    assert(apostrophe_split(u) =~= seq![u]);
}

} // verus!
