use vstd::prelude::*;

use crate::detection::{Language, Script};
use crate::token::{views, Token, TokenView};
use crate::normalizer::apostrophe::ApostropheNormalizer;
use crate::normalizer::transliterate::TransliterateNormalizer;

pub mod apostrophe;
pub mod transliterate;

verus! {

/// A transformation of tokens that applies to some scripts and languages.
pub trait Normalizer {
    /// Whether the normalizer applies to a token with these tags.
    spec fn applies(&self, script: Script, language: Option<Language>) -> bool;

    /// The tokens that normalizing `token` yields, in order.
    spec fn normalized(&self, token: TokenView) -> Seq<TokenView>;

    /// Sub-tokens keep the script and language of the token they come from.
    proof fn lemma_keeps_tags(&self, token: TokenView)
        ensures
            keeps_tags(token, self.normalized(token)),
    ;

    /// Normalizes one token into zero or more tokens.
    fn normalize(&self, token: Token) -> (r: Vec<Token>)
        ensures
            views(r@) == self.normalized(token@),
    ;

    /// Whether the normalizer should be used on a token with these tags.
    fn should_normalize(&self, script: Script, language: Option<Language>) -> (r: bool)
        ensures
            r == self.applies(script, language),
    ;
}

/// Every token of `out` carries the script and language of `t`.
pub open spec fn keeps_tags(t: TokenView, out: Seq<TokenView>) -> bool {
    forall|k: int|
        0 <= k < out.len() ==> (#[trigger] out[k]).script == t.script && out[k].language
            == t.language
}

/// What one normalizer makes of one token: its normalization where it
/// applies, the token itself elsewhere.
pub open spec fn step<N: Normalizer>(n: N, t: TokenView) -> Seq<TokenView> {
    if n.applies(t.script, t.language) {
        n.normalized(t)
    } else {
        seq![t]
    }
}

/// One normalizer run over a token stream, expansions flattened in order.
pub open spec fn stage<N: Normalizer>(n: N, ts: Seq<TokenView>) -> Seq<TokenView>
    decreases ts.len(),
{
    if ts.len() == 0 {
        seq![]
    } else {
        stage(n, ts.drop_last()) + step(n, ts.last())
    }
}

/// The registry run over a token stream, one normalizer after the other in
/// registry order.
pub open spec fn run<N: Normalizer>(registry: Seq<N>, ts: Seq<TokenView>) -> Seq<TokenView>
    decreases registry.len(),
{
    if registry.len() == 0 {
        ts
    } else {
        stage(registry.last(), run(registry.drop_last(), ts))
    }
}

/// The normalizers this library provides.
#[derive(Debug, Clone, Copy, PartialEq, Eq, Structural)]
pub enum NormalizerKind {
    Apostrophe,
    Transliterate,
}

impl Normalizer for NormalizerKind {
    open spec fn applies(&self, script: Script, language: Option<Language>) -> bool {
        match self {
            NormalizerKind::Apostrophe => ApostropheNormalizer.applies(script, language),
            NormalizerKind::Transliterate => TransliterateNormalizer.applies(script, language),
        }
    }

    open spec fn normalized(&self, token: TokenView) -> Seq<TokenView> {
        match self {
            NormalizerKind::Apostrophe => ApostropheNormalizer.normalized(token),
            NormalizerKind::Transliterate => TransliterateNormalizer.normalized(token),
        }
    }

    proof fn lemma_keeps_tags(&self, token: TokenView) {
        match self {
            NormalizerKind::Apostrophe => ApostropheNormalizer.lemma_keeps_tags(token),
            NormalizerKind::Transliterate => TransliterateNormalizer.lemma_keeps_tags(token),
        }
    }

    fn normalize(&self, token: Token) -> (r: Vec<Token>) {
        match self {
            NormalizerKind::Apostrophe => ApostropheNormalizer.normalize(token),
            NormalizerKind::Transliterate => TransliterateNormalizer.normalize(token),
        }
    }

    fn should_normalize(&self, script: Script, language: Option<Language>) -> (r: bool) {
        match self {
            NormalizerKind::Apostrophe => ApostropheNormalizer.should_normalize(script, language),
            NormalizerKind::Transliterate => TransliterateNormalizer.should_normalize(
                script,
                language,
            ),
        }
    }
}

/// The normalizers used by default, in the order they run.
pub fn default_registry() -> (r: Vec<NormalizerKind>)
    ensures
        r@ == seq![NormalizerKind::Transliterate, NormalizerKind::Apostrophe],
{
    let mut r: Vec<NormalizerKind> = Vec::new();
    r.push(NormalizerKind::Transliterate);
    r.push(NormalizerKind::Apostrophe);
    assert(r@ =~= seq![NormalizerKind::Transliterate, NormalizerKind::Apostrophe]);
    r
}

proof fn lemma_views_push(ts: Seq<Token>, t: Token)
    ensures
        views(ts.push(t)) == views(ts).push(t@),
{
    assert(views(ts.push(t)) =~= views(ts).push(t@));
}

proof fn lemma_views_concat(a: Seq<Token>, b: Seq<Token>)
    ensures
        views(a + b) == views(a) + views(b),
{
    assert(views(a + b) =~= views(a) + views(b));
}

/// Runs one normalizer over a token stream: each token it applies to is
/// replaced by its normalization, the others pass through, order is kept.
pub fn normalize_stage<N: Normalizer>(n: &N, tokens: &Vec<Token>) -> (r: Vec<Token>)
    ensures
        views(r@) == stage(*n, views(tokens@)),
{
    let mut out: Vec<Token> = Vec::new();
    let mut i: usize = 0;
    while i < tokens.len()
        invariant
            i <= tokens.len(),
            views(out@) == stage(*n, views(tokens@).take(i as int)),
        decreases tokens.len() - i,
    {
        let ghost ts = views(tokens@);
        assert(ts.take(i + 1).drop_last() =~= ts.take(i as int));
        let t = tokens[i].duplicate();
        let ghost before = out@;
        if n.should_normalize(t.script, t.language) {
            let mut v = n.normalize(t);
            let ghost vv = v@;
            out.append(&mut v);
            proof {
                lemma_views_concat(before, vv);
            }
        } else {
            out.push(t);
            proof {
                lemma_views_push(before, t);
                assert(seq![t@] =~= seq![].push(t@));
                assert(views(before).push(t@) =~= views(before) + seq![t@]);
            }
        }
        i = i + 1;
    }
    assert(views(tokens@).take(i as int) =~= views(tokens@));
    out
}

/// Runs the registry over a token stream: the normalizers apply one after the
/// other in registry order, each to every token the previous one produced.
pub fn normalize_tokens<N: Normalizer>(registry: &Vec<N>, tokens: Vec<Token>) -> (r: Vec<Token>)
    ensures
        views(r@) == run(registry@, views(tokens@)),
{
    let mut current = tokens;
    let mut k: usize = 0;
    while k < registry.len()
        invariant
            k <= registry.len(),
            views(current@) == run(registry@.take(k as int), views(tokens@)),
        decreases registry.len() - k,
    {
        assert(registry@.take(k + 1).drop_last() =~= registry@.take(k as int));
        current = normalize_stage(&registry[k], &current);
        k = k + 1;
    }
    assert(registry@.take(k as int) =~= registry@);
    current
}

/// A stage keeps document order: running it over two streams one after the
/// other gives the two results one after the other, so the tokens expanded
/// from one source token stay contiguous and in place.
pub proof fn lemma_stage_concat<N: Normalizer>(n: N, a: Seq<TokenView>, b: Seq<TokenView>)
    ensures
        stage(n, a + b) == stage(n, a) + stage(n, b),
    decreases b.len(),
{
    if b.len() == 0 {
        assert(a + b =~= a);
        assert(stage(n, a) + stage(n, b) =~= stage(n, a));
    } else {
        assert((a + b).drop_last() =~= a + b.drop_last());
        assert((a + b).last() == b.last());
        lemma_stage_concat(n, a, b.drop_last());
        assert(stage(n, a) + (stage(n, b.drop_last()) + step(n, b.last())) =~= (stage(n, a)
            + stage(n, b.drop_last())) + step(n, b.last()));
    }
}

/// A stage over a single token is what the normalizer makes of that token.
pub proof fn lemma_stage_single<N: Normalizer>(n: N, t: TokenView)
    ensures
        stage(n, seq![t]) == step(n, t),
{
    assert(seq![t].drop_last() =~= Seq::<TokenView>::empty());
    assert(stage(n, Seq::<TokenView>::empty()) + step(n, t) =~= step(n, t));
}

/// Two normalizers in a registry run in the order they are declared: the
/// second one works on everything the first one produced.
pub proof fn lemma_registry_order<N: Normalizer>(a: N, b: N, ts: Seq<TokenView>)
    ensures
        run(seq![a, b], ts) == stage(b, stage(a, ts)),
{
    assert(seq![a, b].drop_last() =~= seq![a]);
    assert(seq![a].drop_last() =~= Seq::<N>::empty());
    assert(run(Seq::<N>::empty(), ts) == ts);
    assert(run(seq![a], ts) == stage(a, ts));
    assert(seq![a, b].last() == b);
}

/// A stage leaves a stream unchanged when the normalizer leaves each of its
/// tokens unchanged.
pub proof fn lemma_stage_fixpoint<N: Normalizer>(n: N, ts: Seq<TokenView>)
    requires
        forall|k: int| 0 <= k < ts.len() ==> step(n, #[trigger] ts[k]) == seq![ts[k]],
    ensures
        stage(n, ts) == ts,
    decreases ts.len(),
{
    if ts.len() > 0 {
        let p = ts.drop_last();
        assert forall|k: int| 0 <= k < p.len() implies step(n, #[trigger] p[k]) == seq![p[k]] by {
            assert(p[k] == ts[k]);
        }
        lemma_stage_fixpoint(n, p);
        assert(step(n, ts[ts.len() - 1]) == seq![ts[ts.len() - 1]]);
        assert(p + seq![ts.last()] =~= ts);
    }
}

/// Running a registry again changes nothing: a stream whose every token each
/// normalizer of the registry leaves unchanged comes out of the registry
/// unchanged.
pub proof fn lemma_run_fixpoint<N: Normalizer>(registry: Seq<N>, ts: Seq<TokenView>)
    requires
        forall|j: int, k: int|
            0 <= j < registry.len() && 0 <= k < ts.len() ==> step(
                #[trigger] registry[j],
                #[trigger] ts[k],
            ) == seq![ts[k]],
    ensures
        run(registry, ts) == ts,
    decreases registry.len(),
{
    if registry.len() > 0 {
        let p = registry.drop_last();
        assert forall|j: int, k: int| 0 <= j < p.len() && 0 <= k < ts.len() implies step(
            #[trigger] p[j],
            #[trigger] ts[k],
        ) == seq![ts[k]] by {
            assert(p[j] == registry[j]);
        }
        lemma_run_fixpoint(p, ts);
        let n = registry.last();
        assert forall|k: int| 0 <= k < ts.len() implies step(n, #[trigger] ts[k]) == seq![ts[k]] by {
            assert(n == registry[registry.len() - 1]);
        }
        lemma_stage_fixpoint(n, ts);
    }
}

/// A registry of `d` then `a` run on one token `t` that both apply to: `d`
/// normalizes `t`, then `a` normalizes each token `d` produced, in order, the
/// results kept in that order.
pub proof fn lemma_two_stages<N: Normalizer>(d: N, a: N, t: TokenView)
    requires
        d.applies(t.script, t.language),
        a.applies(t.script, t.language),
    ensures
        run(seq![d, a], seq![t]) == stage(a, d.normalized(t)),
        forall|k: int|
            0 <= k < d.normalized(t).len() ==> step(a, #[trigger] d.normalized(t)[k])
                == a.normalized(d.normalized(t)[k]),
{
    lemma_registry_order(d, a, seq![t]);
    lemma_stage_single(d, t);
    d.lemma_keeps_tags(t);
}

} // verus!
