use vstd::prelude::*;
use crate::compile::{
    clone_t, frame_t, res_frames,
    base_pattern, call_head, cps_rules, divider, frame_m, head, inner_body, inner_pattern, inter_body,
    inter_pattern, inters, mt, rep_tt, MacroRuleV,
};
use crate::pattern::{instance, instance_one, lemma_substitute_add, lemma_substitute_plain, lemma_substitute_rep, rep_subst, substitute, MatchV};
use crate::rule::RuleV;
use crate::ruleset::entry_rule;
use crate::tokens::{id, p, Delim, TokV};

verus! {

/// A rule without sequential bindings compiles to its base case, whose body
/// is the rule's own body unchanged and whose pattern accepts exactly the
/// frame that the entry rule builds from an input matching the rule's
/// pattern, and to its inner base case; to nothing else.
pub proof fn lemma_no_binding_rule_keeps_body(name: Seq<char>, r: RuleV)
    requires
        r.bindings.len() == 0,
    ensures
        cps_rules(name, r) == seq![
            MacroRuleV {
                pattern: mt(head() + divider() + divider()) + frame_m(r.pattern, rep_tt("_cps_dud_pattern"@)) + mt(
                    seq![p('|')],
                ),
                body: r.body,
            },
            MacroRuleV { pattern: inner_pattern(r), body: inner_body(r) },
        ],
{
    assert(crate::compile::res_frames(r.bindings, 0) == Seq::<crate::pattern::MatchV>::empty());
    assert(base_pattern(r) =~= mt(head() + divider() + divider()) + frame_m(r.pattern, rep_tt("_cps_dud_pattern"@))
        + mt(seq![p('|')]));
    assert(cps_rules(name, r) =~= seq![
        MacroRuleV { pattern: base_pattern(r), body: r.body },
        MacroRuleV { pattern: inner_pattern(r), body: inner_body(r) },
    ]);
}

proof fn lemma_inters_index(name: Seq<char>, r: RuleV, m: int, i: int)
    requires
        0 <= i < m,
    ensures
        inters(name, r, m).len() == m,
        inters(name, r, m)[i] == (MacroRuleV { pattern: inter_pattern(r, i), body: inter_body(name, r, i) }),
    decreases m,
{
    lemma_inters_len(name, r, m - 1);
    if i < m - 1 {
        lemma_inters_index(name, r, m - 1, i);
    }
}

proof fn lemma_inters_len(name: Seq<char>, r: RuleV, m: int)
    requires
        m >= 0,
    ensures
        inters(name, r, m).len() == m,
    decreases m,
{
    if m > 0 {
        lemma_inters_len(name, r, m - 1);
    }
}

/// Bindings are evaluated in declaration order: after the two base cases,
/// the compiled step at position `i` is the one that dispatches binding `i`,
/// and its pattern requires the results of bindings `0 .. i` on the data
/// stack, so it can only fire once they have all been computed.
pub proof fn lemma_steps_in_binding_order(name: Seq<char>, r: RuleV, i: int)
    requires
        0 <= i < r.bindings.len(),
    ensures
        cps_rules(name, r).len() == r.bindings.len() + 2,
        cps_rules(name, r)[i + 2].pattern == inter_pattern(r, i),
        cps_rules(name, r)[i + 2].body == call_head(name, r.bindings[i]) + crate::compile::call_stack_part(
            r.bindings[i],
            i,
        ),
{
    lemma_inters_index(name, r, r.bindings.len() as int, i);
}

/// An indirect binding dispatches to whatever name its capture holds: the
/// step of binding `i` invokes `$path`, which the host engine substitutes
/// with the value that an earlier binding produced.
pub proof fn lemma_indirect_step_invokes_capture(name: Seq<char>, r: RuleV, i: int)
    requires
        0 <= i < r.bindings.len(),
        r.bindings[i].indirect,
    ensures
        cps_rules(name, r)[i + 2].body.subrange(0, 1 + r.bindings[i].path.len() as int) == seq![p('$')]
            + r.bindings[i].path,
        cps_rules(name, r)[i + 2].body[1 + r.bindings[i].path.len() as int] == p('!'),
{
    lemma_steps_in_binding_order(name, r, i);
    let b = r.bindings[i];
    let body = cps_rules(name, r)[i + 2].body;
    assert(body.subrange(0, 1 + b.path.len() as int) =~= seq![p('$')] + b.path);
}

} // verus!

verus! {

proof fn lemma_instance_push(a: Seq<MatchV>, x: MatchV, f: spec_fn(Seq<char>) -> Seq<TokV>)
    ensures
        instance(a.push(x), f) == instance(a, f) + instance_one(x, f),
{
    assert(a.push(x).drop_last() =~= a);
}

proof fn lemma_instance_add(a: Seq<MatchV>, b: Seq<MatchV>, f: spec_fn(Seq<char>) -> Seq<TokV>)
    ensures
        instance(a + b, f) == instance(a, f) + instance(b, f),
    decreases b.len(),
{
    if b.len() == 0 {
        assert(a + b =~= a);
        assert(instance(a, f) + instance(b, f) =~= instance(a, f));
    } else {
        let bi = b.drop_last();
        let x = b.last();
        lemma_instance_add(a, bi, f);
        assert(a + b =~= (a + bi).push(x));
        assert(b =~= bi.push(x));
        lemma_instance_push(a + bi, x, f);
        lemma_instance_push(bi, x, f);
        assert(instance(a, f) + instance(bi, f) + instance_one(x, f) =~= instance(a, f) + (instance(bi, f)
            + instance_one(x, f)));
    }
}

proof fn lemma_instance_mt(s: Seq<TokV>, f: spec_fn(Seq<char>) -> Seq<TokV>)
    ensures
        instance(mt(s), f) == s,
    decreases s.len(),
{
    if s.len() > 0 {
        lemma_instance_mt(s.drop_last(), f);
        assert(mt(s) =~= mt(s.drop_last()).push(MatchV::Token(s.last())));
        lemma_instance_push(mt(s.drop_last()), MatchV::Token(s.last()), f);
        assert(s.drop_last() + seq![s.last()] =~= s);
    }
}

proof fn lemma_instance_agree(m: Seq<MatchV>, f: spec_fn(Seq<char>) -> Seq<TokV>, g: spec_fn(Seq<char>) -> Seq<TokV>)
    requires
        forall|k: int| 0 <= k < m.len() && #[trigger] m[k] is Var ==> f(m[k]->Var_0) == g(m[k]->Var_0),
    ensures
        instance(m, f) == instance(m, g),
    decreases m.len(),
{
    if m.len() > 0 {
        assert(m.last() == m[m.len() - 1]);
        lemma_instance_agree(m.drop_last(), f, g);
    }
}

proof fn lemma_instance_rep_tt(n: Seq<char>, f: spec_fn(Seq<char>) -> Seq<TokV>)
    ensures
        instance(rep_tt(n), f) == f(n),
{
    let e = Seq::<MatchV>::empty();
    let x0 = MatchV::RepOpen;
    let x1 = crate::compile::tt_var(n);
    let x2 = MatchV::RepClose(None, crate::pattern::MacroRepOp::Times, false);
    assert(rep_tt(n) =~= e.push(x0).push(x1).push(x2));
    lemma_instance_push(e, x0, f);
    lemma_instance_push(e.push(x0), x1, f);
    lemma_instance_push(e.push(x0).push(x1), x2, f);
    assert(instance(e, f) == Seq::<TokV>::empty());
    assert(instance(rep_tt(n), f) =~= f(n));
}

/// The entry rule rewrites an input `x` to `name! { @_cps |:| |:| ({ x }, { x }) | }`.
proof fn lemma_entry_call(name: Seq<char>, x: Seq<TokV>, c: spec_fn(Seq<char>) -> Seq<TokV>)
    requires
        forall|n: Seq<char>| #[trigger] c(n) == x,
    ensures
        substitute(entry_rule(name).body, c) == seq![id(name), p('!'), TokV::Open(Delim::Brace)] + head() + divider()
            + divider() + frame_t(x) + seq![p('|'), TokV::Close(Delim::Brace)],
{
    let pre = seq![id(name), p('!'), TokV::Open(Delim::Brace)] + head() + divider() + divider() + seq![
        TokV::Open(Delim::Paren),
        TokV::Open(Delim::Brace),
    ];
    let mid = seq![TokV::Close(Delim::Brace), p(','), TokV::Open(Delim::Brace)];
    let post = seq![TokV::Close(Delim::Brace), TokV::Close(Delim::Paren), p('|'), TokV::Close(Delim::Brace)];
    let rep = rep_subst("input"@);
    assert(clone_t("input"@) == rep);
    assert(entry_rule(name).body =~= pre + (rep + (mid + (rep + post))));
    lemma_substitute_plain(pre, c);
    lemma_substitute_plain(mid, c);
    lemma_substitute_plain(post, c);
    lemma_substitute_rep("input"@, c);
    assert(c("input"@) == x);
    lemma_substitute_add(rep, post, c);
    lemma_substitute_add(mid, rep + post, c);
    lemma_substitute_add(rep, mid + (rep + post), c);
    lemma_substitute_add(pre, rep + (mid + (rep + post)), c);
    assert(substitute(entry_rule(name).body, c) =~= seq![id(name), p('!'), TokV::Open(Delim::Brace)] + head()
        + divider() + divider() + frame_t(x) + seq![p('|'), TokV::Close(Delim::Brace)]);
}

/// The base case of a rule without bindings matches `@_cps |:| |:| ({ x }, { x }) |`
/// for the input `x` that the rule's pattern matches.
proof fn lemma_base_instance(r: RuleV, f: spec_fn(Seq<char>) -> Seq<TokV>, g: spec_fn(Seq<char>) -> Seq<TokV>)
    requires
        r.bindings.len() == 0,
        forall|k: int|
            0 <= k < r.pattern.len() && #[trigger] r.pattern[k] is Var ==> r.pattern[k]->Var_0 != "_cps_dud_pattern"@,
        forall|n: Seq<char>| #[trigger] g(n) == if n == "_cps_dud_pattern"@ {
            instance(r.pattern, f)
        } else {
            f(n)
        },
    ensures
        instance(base_pattern(r), g) == head() + divider() + divider() + frame_t(instance(r.pattern, f)) + seq![p('|')],
{
    let x = instance(r.pattern, f);
    assert forall|k: int| 0 <= k < r.pattern.len() && #[trigger] r.pattern[k] is Var implies f(r.pattern[k]->Var_0) == g(
        r.pattern[k]->Var_0,
    ) by {
        assert(g(r.pattern[k]->Var_0) == f(r.pattern[k]->Var_0));
    }
    lemma_instance_agree(r.pattern, f, g);
    lemma_instance_rep_tt("_cps_dud_pattern"@, g);
    assert(g("_cps_dud_pattern"@) == x);
    assert(res_frames(r.bindings, 0) =~= Seq::<MatchV>::empty());
    let hd = head() + divider() + divider() + seq![TokV::Open(Delim::Paren), TokV::Open(Delim::Brace)];
    let mid = seq![TokV::Close(Delim::Brace), p(','), TokV::Open(Delim::Brace)];
    let tl = seq![TokV::Close(Delim::Brace), TokV::Close(Delim::Paren), p('|')];
    let dud = rep_tt("_cps_dud_pattern"@);
    assert(base_pattern(r) =~= mt(hd) + r.pattern + mt(mid) + dud + mt(tl));
    lemma_instance_add(mt(hd), r.pattern, g);
    lemma_instance_add(mt(hd) + r.pattern, mt(mid), g);
    lemma_instance_add(mt(hd) + r.pattern + mt(mid), dud, g);
    lemma_instance_add(mt(hd) + r.pattern + mt(mid) + dud, mt(tl), g);
    lemma_instance_mt(hd, g);
    lemma_instance_mt(mid, g);
    lemma_instance_mt(tl, g);
    assert(instance(base_pattern(r), g) =~= head() + divider() + divider() + frame_t(x) + seq![p('|')]);
}

/// A rule without sequential bindings compiles to rules that do what it did.
/// Take an input that the rule's pattern matches with the captures `f`: the
/// entry rule (substituting `c`, which binds its capture to that input)
/// rewrites it to an invocation of the rule set whose input is exactly what
/// the base case's pattern matches with the rule's captures bound as before
/// (`g`); and the base case rewrites to the rule's body, unchanged.
pub proof fn lemma_dependency_free_identity(
    name: Seq<char>,
    r: RuleV,
    f: spec_fn(Seq<char>) -> Seq<TokV>,
    c: spec_fn(Seq<char>) -> Seq<TokV>,
    g: spec_fn(Seq<char>) -> Seq<TokV>,
)
    requires
        r.bindings.len() == 0,
        forall|k: int|
            0 <= k < r.pattern.len() && #[trigger] r.pattern[k] is Var ==> r.pattern[k]->Var_0 != "_cps_dud_pattern"@,
        forall|n: Seq<char>| #[trigger] c(n) == instance(r.pattern, f),
        forall|n: Seq<char>| #[trigger] g(n) == if n == "_cps_dud_pattern"@ {
            instance(r.pattern, f)
        } else {
            f(n)
        },
    ensures
        cps_rules(name, r)[0] == (MacroRuleV { pattern: base_pattern(r), body: r.body }),
        substitute(entry_rule(name).body, c) == seq![id(name), p('!'), TokV::Open(Delim::Brace)] + instance(
            base_pattern(r),
            g,
        ) + seq![TokV::Close(Delim::Brace)],
{
    lemma_entry_call(name, instance(r.pattern, f), c);
    lemma_base_instance(r, f, g);
    assert(seq![id(name), p('!'), TokV::Open(Delim::Brace)] + instance(base_pattern(r), g) + seq![
        TokV::Close(Delim::Brace),
    ] =~= seq![id(name), p('!'), TokV::Open(Delim::Brace)] + head() + divider() + divider() + frame_t(
        instance(r.pattern, f),
    ) + seq![p('|'), TokV::Close(Delim::Brace)]);
}

} // verus!

verus! {

/// What a rule computes, and in which order, does not depend on its body:
/// two rules with the same pattern and the same bindings, whose bodies use
/// the bindings' results differently (or not at all), compile to the same
/// steps and the same dispatch points, so their bindings are evaluated by
/// the same invocations in the same order.
pub proof fn lemma_steps_ignore_body(name: Seq<char>, r: RuleV, r2: RuleV, i: int)
    requires
        r.pattern == r2.pattern,
        r.bindings == r2.bindings,
        0 <= i < r.bindings.len(),
    ensures
        cps_rules(name, r)[i + 2] == cps_rules(name, r2)[i + 2],
        crate::compile::debug_entries(r, r.bindings.len() as int) == crate::compile::debug_entries(
            r2,
            r2.bindings.len() as int,
        ),
{
    lemma_steps_in_binding_order(name, r, i);
    lemma_steps_in_binding_order(name, r2, i);
    assert(inter_pattern(r, i) == inter_pattern(r2, i));
    lemma_debug_entries_ignore_body(r, r2, r.bindings.len() as int);
}

proof fn lemma_debug_entries_ignore_body(r: RuleV, r2: RuleV, m: int)
    requires
        r.pattern == r2.pattern,
        r.bindings == r2.bindings,
    ensures
        crate::compile::debug_entries(r, m) == crate::compile::debug_entries(r2, m),
    decreases m,
{
    if m > 0 {
        lemma_debug_entries_ignore_body(r, r2, m - 1);
        assert(crate::compile::debug_pattern(r, m - 1) == crate::compile::debug_pattern(r2, m - 1));
        assert(crate::compile::expected_pattern(r, m - 1) == crate::compile::expected_pattern(r2, m - 1));
    }
}

} // verus!
