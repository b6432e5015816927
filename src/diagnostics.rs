use vstd::prelude::*;
use crate::pattern::{render, MacroMatch, MacroMatcher, MatchV};
use crate::text::{push_chars, push_str, text_of, tokens_text};
use crate::tokens::Tokens;

verus! {

/// The text of a pattern.
pub open spec fn pattern_text(m: Seq<MatchV>) -> Seq<char> {
    text_of(render(m))
}

/// The expected shapes, each in backquotes, joined by " or ".
pub open spec fn quoted_list(es: Seq<Seq<MatchV>>) -> Seq<char>
    decreases es.len(),
{
    if es.len() == 0 {
        seq![]
    } else if es.len() == 1 {
        seq!['`'] + pattern_text(es[0]) + seq!['`']
    } else {
        quoted_list(es.drop_last()) + " or `"@ + pattern_text(es.last()) + seq!['`']
    }
}

/// The text of the diagnostic of a dispatch point of the rule set `name`
/// whose top frame matched none of the shapes `es`; what was received follows it.
pub open spec fn mismatch_message(name: Seq<char>, es: Seq<Seq<MatchV>>) -> Seq<char> {
    if es.len() == 1 {
        "while evaluating macro "@ + name + ", expected something that matches `"@ + pattern_text(es[0])
            + "` but got `"@
    } else {
        "while evaluating macro "@ + name + ", expected something that matches one of "@ + quoted_list(es)
            + " but got `"@
    }
}

pub open spec fn contains(a: Seq<char>, b: Seq<char>) -> bool {
    exists|k: int| 0 <= k && k + b.len() <= a.len() && #[trigger] a.subrange(k, k + b.len()) == b
}

proof fn lemma_contains_within(a: Seq<char>, x: Seq<char>, c: Seq<char>, b: Seq<char>)
    requires
        contains(x, b),
    ensures
        contains(a + x + c, b),
{
    let k = choose|k: int| 0 <= k && k + b.len() <= x.len() && #[trigger] x.subrange(k, k + b.len()) == b;
    let s = a + x + c;
    assert(s.subrange(a.len() + k, a.len() + k + b.len()) =~= b);
}

proof fn lemma_quoted_list_contains(es: Seq<Seq<MatchV>>, i: int)
    requires
        0 <= i < es.len(),
    ensures
        contains(quoted_list(es), pattern_text(es[i])),
    decreases es.len(),
{
    let b = pattern_text(es[i]);
    assert(contains(b, b)) by {
        assert(b.subrange(0int, 0int + b.len()) =~= b);
    }
    if es.len() == 1 {
        lemma_contains_within(seq!['`'], b, seq!['`'], b);
    } else if i == es.len() - 1 {
        lemma_contains_within(quoted_list(es.drop_last()) + " or `"@, b, seq!['`'], b);
    } else {
        lemma_quoted_list_contains(es.drop_last(), i);
        assert(es.drop_last()[i] == es[i]);
        lemma_contains_within(
            Seq::<char>::empty(),
            quoted_list(es.drop_last()),
            " or `"@ + pattern_text(es.last()) + seq!['`'],
            b,
        );
        assert(Seq::<char>::empty() + quoted_list(es.drop_last()) + (" or `"@ + pattern_text(es.last())
            + seq!['`']) =~= quoted_list(es));
    }
}

/// A diagnostic is exhaustive: it names every shape that the dispatch point expected.
pub proof fn lemma_mismatch_names_every_shape(name: Seq<char>, es: Seq<Seq<MatchV>>, i: int)
    requires
        0 <= i < es.len(),
    ensures
        contains(mismatch_message(name, es), pattern_text(es[i])),
{
    let b = pattern_text(es[i]);
    assert(contains(b, b)) by {
        assert(b.subrange(0int, 0int + b.len()) =~= b);
    }
    if es.len() == 1 {
        lemma_contains_within(
            "while evaluating macro "@ + name + ", expected something that matches `"@,
            b,
            "` but got `"@,
            b,
        );
    } else {
        lemma_quoted_list_contains(es, i);
        lemma_contains_within(
            "while evaluating macro "@ + name + ", expected something that matches one of "@,
            quoted_list(es),
            " but got `"@,
            b,
        );
    }
}

pub open spec fn matcher_views(s: Seq<MacroMatcher>) -> Seq<Seq<MatchV>> {
    s.map_values(|m: MacroMatcher| m@)
}

fn push_pattern_text(v: &mut Vec<char>, m: &MacroMatcher)
    ensures
        final(v)@ == old(v)@ + pattern_text(m@),
{
    let mut t = Tokens::new();
    m.to_tokens(&mut t);
    assert(t@ =~= render(m@));
    let txt = tokens_text(&t);
    push_chars(v, &txt);
}

/// Builds the text of the diagnostic of a dispatch point of the rule set `name`.
pub fn mismatch_text(name: &String, es: &Vec<MacroMatcher>) -> (r: Vec<char>)
    requires
        es@.len() > 0,
    ensures
        r@ == mismatch_message(name@, matcher_views(es@)),
{
    let ghost ev = matcher_views(es@);
    let mut v: Vec<char> = Vec::new();
    push_str(&mut v, "while evaluating macro ");
    push_str(&mut v, name.as_str());
    if es.len() == 1 {
        push_str(&mut v, ", expected something that matches `");
        push_pattern_text(&mut v, &es[0]);
        push_str(&mut v, "` but got `");
        assert(v@ =~= mismatch_message(name@, ev));
        return v;
    }
    push_str(&mut v, ", expected something that matches one of ");
    let ghost pre = v@;
    v.push('`');
    push_pattern_text(&mut v, &es[0]);
    v.push('`');
    assert(ev.subrange(0, 1).len() == 1 && ev.subrange(0, 1)[0] == ev[0]);
    assert(v@ =~= pre + quoted_list(ev.subrange(0, 1)));
    let mut i: usize = 1;
    while i < es.len()
        invariant
            1 <= i <= es@.len(),
            ev == matcher_views(es@),
            v@ == pre + quoted_list(ev.subrange(0, i as int)),
        decreases es@.len() - i,
    {
        push_str(&mut v, " or `");
        push_pattern_text(&mut v, &es[i]);
        v.push('`');
        assert(ev.subrange(0, i + 1).drop_last() =~= ev.subrange(0, i as int));
        assert(v@ =~= pre + quoted_list(ev.subrange(0, i + 1)));
        i = i + 1;
    }
    assert(ev.subrange(0, es@.len() as int) =~= ev);
    push_str(&mut v, " but got `");
    assert(v@ =~= mismatch_message(name@, ev));
    v
}

} // verus!
