use vstd::prelude::*;
use crate::compile::{
    add_cps, cps_rules, debug_entries, divider, frame_m, frame_t, head, mt, out_views, pair_views, rep_tt,
    tt_var, clone_t, MacroRule, MacroRuleV,
};
use crate::diagnostics::{matcher_views, mismatch_message, mismatch_text};
use crate::pattern::{MacroMatch, MacroMatcher, MatchV};
use crate::rule::{group, rule_views, CPSMacroRule, RuleV};
use crate::text::{push_str, string_lit_tok, string_literal_text};
use crate::tokens::{id, p, pj, Delim, Tok, TokV, Tokens};

verus! {

pub open spec fn find_entry(es: Seq<(Seq<MatchV>, Seq<Seq<MatchV>>)>, m: Seq<MatchV>, j: int) -> int
    decreases es.len() - j,
{
    if j < 0 || j >= es.len() {
        es.len() as int
    } else if es[j].0 == m {
        j
    } else {
        find_entry(es, m, j + 1)
    }
}

/// Records that the dispatch point `x.0` expects the shape `x.1`: dispatch
/// points equal in structure share one entry, kept in order of first
/// appearance, and each shape is listed once.
pub open spec fn add_entry(es: Seq<(Seq<MatchV>, Seq<Seq<MatchV>>)>, x: (Seq<MatchV>, Seq<MatchV>)) -> Seq<
    (Seq<MatchV>, Seq<Seq<MatchV>>),
> {
    let j = find_entry(es, x.0, 0);
    if j < es.len() {
        if es[j].1.contains(x.1) {
            es
        } else {
            es.update(j, (es[j].0, es[j].1.push(x.1)))
        }
    } else {
        es.push((x.0, seq![x.1]))
    }
}

pub open spec fn collate(xs: Seq<(Seq<MatchV>, Seq<MatchV>)>) -> Seq<(Seq<MatchV>, Seq<Seq<MatchV>>)>
    decreases xs.len(),
{
    if xs.len() == 0 {
        seq![]
    } else {
        add_entry(collate(xs.drop_last()), xs.last())
    }
}

/// The dispatch points of all rules, in declaration order.
pub open spec fn all_debug(rs: Seq<RuleV>) -> Seq<(Seq<MatchV>, Seq<MatchV>)>
    decreases rs.len(),
{
    if rs.len() == 0 {
        seq![]
    } else {
        all_debug(rs.drop_last()) + debug_entries(rs.last(), rs.last().bindings.len() as int)
    }
}

/// The compiled rules of all rules, in declaration order.
pub open spec fn flat_rules(name: Seq<char>, rs: Seq<RuleV>) -> Seq<MacroRuleV>
    decreases rs.len(),
{
    if rs.len() == 0 {
        seq![]
    } else {
        flat_rules(name, rs.drop_last()) + cps_rules(name, rs.last())
    }
}

/// `std::n`
pub open spec fn std_path(n: Seq<char>) -> Seq<TokV> {
    seq![id("std"@), pj(':'), p(':'), id(n)]
}

/// A body that stops expansion with a diagnostic: the text `msg`, the tokens
/// captured by the repetition `var`, and the text `suffix`.
pub open spec fn diag_body(msg: Seq<char>, var: Seq<char>, suffix: Seq<char>) -> Seq<TokV> {
    std_path("compile_error"@) + seq![p('!'), TokV::Open(Delim::Paren)] + std_path("concat"@) + seq![
        p('!'),
        TokV::Open(Delim::Paren),
        TokV::Lit(string_literal_text(msg)),
        p(','),
    ] + std_path("stringify"@) + seq![p('!'), TokV::Open(Delim::Paren)] + clone_t(var) + seq![
        TokV::Close(Delim::Paren),
        p(','),
        TokV::Lit(string_literal_text(suffix)),
        TokV::Close(Delim::Paren),
        TokV::Close(Delim::Paren),
        p(';'),
    ]
}

pub open spec fn error_rule(name: Seq<char>, e: (Seq<MatchV>, Seq<Seq<MatchV>>)) -> MacroRuleV {
    MacroRuleV { pattern: e.0, body: diag_body(mismatch_message(name, e.1), "unexpected"@, "` instead"@) }
}

pub open spec fn error_rules(name: Seq<char>, es: Seq<(Seq<MatchV>, Seq<Seq<MatchV>>)>) -> Seq<MacroRuleV> {
    es.map_values(|e: (Seq<MatchV>, Seq<Seq<MatchV>>)| error_rule(name, e))
}

pub open spec fn bug_note() -> Seq<char> {
    " - this is a bug in the cps compiler; please report it on the issue tracker of the cps crate"@
}

/// The rules that report a protocol state that no other rule accepts.
pub open spec fn fallback_rules() -> Seq<MacroRuleV> {
    seq![
        MacroRuleV {
            pattern: mt(head() + divider()) + seq![MatchV::RepOpen] + mt(seq![TokV::Open(Delim::Paren)]) + seq![
                tt_var("call_stack"@),
            ] + mt(seq![TokV::Close(Delim::Paren)]) + seq![
                MatchV::RepClose(Some(p('|')), crate::pattern::MacroRepOp::Times, false),
            ] + mt(divider()) + frame_m(rep_tt("unexpected"@), rep_tt("_un2"@)) + rep_tt("data_stack"@),
            body: diag_body("cannot match `"@, "unexpected"@, "`"@),
        },
        MacroRuleV {
            pattern: mt(head() + divider() + divider() + seq![p('|')]),
            body: std_path("compile_error"@) + seq![
                p('!'),
                TokV::Open(Delim::Paren),
                TokV::Lit(string_literal_text("base case has no result"@ + bug_note())),
                TokV::Close(Delim::Paren),
                p(';'),
            ],
        },
        MacroRuleV {
            pattern: mt(head()) + rep_tt("everything"@),
            body: diag_body(
                "cps macro evaluation resulted in an invalid state: `"@,
                "everything"@,
                "`"@ + bug_note(),
            ),
        },
    ]
}

/// The rule that accepts an invocation from outside the protocol and starts it.
pub open spec fn entry_rule(name: Seq<char>) -> MacroRuleV {
    MacroRuleV {
        pattern: rep_tt("input"@),
        body: seq![id(name), p('!'), TokV::Open(Delim::Brace)] + head() + divider() + divider() + frame_t(
            clone_t("input"@),
        ) + seq![p('|'), TokV::Close(Delim::Brace)],
    }
}

/// The rule set that the rules `rs` of the rule set `name` compile to.
pub open spec fn compiled_rules(name: Seq<char>, rs: Seq<RuleV>) -> Seq<MacroRuleV> {
    flat_rules(name, rs) + error_rules(name, collate(all_debug(rs))) + fallback_rules() + seq![
        entry_rule(name),
    ]
}

} // verus!

verus! {

fn match_same(a: &MacroMatch, b: &MacroMatch) -> (r: bool)
    ensures
        r == (a@ == b@),
{
    match (a, b) {
        (MacroMatch::Token(x), MacroMatch::Token(y)) => x.same(y),
        (MacroMatch::Identifier(x), MacroMatch::Identifier(y)) => x.identifier == y.identifier
            && x.macro_frag_spec == y.macro_frag_spec,
        (MacroMatch::RepetitionOpen, MacroMatch::RepetitionOpen) => true,
        (MacroMatch::RepetitionClose(x), MacroMatch::RepetitionClose(y)) => {
            let sep = match (&x.rep_sep, &y.rep_sep) {
                (Some(s), Some(t)) => s.token.same(&t.token),
                (None, None) => true,
                _ => false,
            };
            sep && x.rep_op == y.rep_op && x.op_joint == y.op_joint
        },
        _ => false,
    }
}

/// Whether two matchers are equal in structure.
pub fn matcher_same(a: &MacroMatcher, b: &MacroMatcher) -> (r: bool)
    ensures
        r == (a@ == b@),
{
    assert(a@.len() == a.matches@.len() && b@.len() == b.matches@.len());
    if a.matches.len() != b.matches.len() {
        return false;
    }
    let mut i: usize = 0;
    while i < a.matches.len()
        invariant
            a@.len() == b@.len(),
            i <= a@.len(),
            forall|j: int| 0 <= j < i ==> a@[j] == b@[j],
        decreases a@.len() - i,
    {
        assert(a@[i as int] == a.matches@[i as int]@ && b@[i as int] == b.matches@[i as int]@);
        if !match_same(&a.matches[i], &b.matches[i]) {
            assert(a@[i as int] != b@[i as int]);
            return false;
        }
        i = i + 1;
    }
    assert(a@ =~= b@);
    true
}

pub open spec fn entry_views(s: Seq<(MacroMatcher, Vec<MacroMatcher>)>) -> Seq<(Seq<MatchV>, Seq<Seq<MatchV>>)> {
    s.map_values(|e: (MacroMatcher, Vec<MacroMatcher>)| (e.0@, matcher_views(e.1@)))
}

pub open spec fn entries_nonempty(es: Seq<(Seq<MatchV>, Seq<Seq<MatchV>>)>) -> bool {
    forall|k: int| 0 <= k < es.len() ==> (#[trigger] es[k]).1.len() > 0
}

fn contains_matcher(l: &Vec<MacroMatcher>, m: &MacroMatcher) -> (r: bool)
    ensures
        r == matcher_views(l@).contains(m@),
{
    let mut k: usize = 0;
    while k < l.len()
        invariant
            k <= l@.len(),
            forall|q: int| 0 <= q < k ==> matcher_views(l@)[q] != m@,
        decreases l@.len() - k,
    {
        if matcher_same(&l[k], m) {
            assert(matcher_views(l@)[k as int] == m@);
            return true;
        }
        k = k + 1;
    }
    false
}

fn add_entry_exec(es: &mut Vec<(MacroMatcher, Vec<MacroMatcher>)>, xm: MacroMatcher, xe: MacroMatcher)
    requires
        entries_nonempty(entry_views(old(es)@)),
    ensures
        entry_views(final(es)@) == add_entry(entry_views(old(es)@), (xm@, xe@)),
        entries_nonempty(entry_views(final(es)@)),
{
    let ghost ev = entry_views(es@);
    let ghost xv = (xm@, xe@);
    let mut j: usize = 0;
    while j < es.len()
        invariant
            j <= es@.len() == ev.len(),
            ev == entry_views(es@),
            entries_nonempty(ev),
            ev == entry_views(old(es)@),
            xv == (xm@, xe@),
            find_entry(ev, xv.0, 0) == find_entry(ev, xv.0, j as int),
        decreases es@.len() - j,
    {
        assert(ev[j as int] == (es@[j as int].0@, matcher_views(es@[j as int].1@)));
        if matcher_same(&es[j].0, &xm) {
            assert(find_entry(ev, xv.0, j as int) == j);
            if contains_matcher(&es[j].1, &xe) {
                return;
            }
            let ghost old_es = es@;
            let (m, mut l) = es.remove(j);
            let ghost l0 = matcher_views(l@);
            let ghost l_before = l@;
            l.push(xe);
            assert(l@ == l_before.push(xe));
            assert(matcher_views(l@) =~= l0.push(xv.1));
            es.insert(j, (m, l));
            assert(es@ =~= old_es.update(j as int, (m, l)));
            assert(find_entry(ev, xv.0, j as int) == j);
            assert(entry_views(es@) =~= add_entry(ev, xv));
            return;
        }
        j = j + 1;
    }
    let mut l: Vec<MacroMatcher> = Vec::new();
    l.push(xe);
    es.push((xm, l));
    assert(matcher_views(l@) =~= seq![xv.1]);
    assert(entry_views(es@) =~= add_entry(ev, xv));
}

fn std_path_exec(out: &mut Tokens, n: &str)
    ensures
        final(out)@ == old(out)@ + std_path(n@),
{
    let ghost o = out@;
    out.push_ident("std");
    out.push(Tok::joint(':'));
    out.push_alone(':');
    out.push_ident(n);
    assert(out@ =~= o + std_path(n@));
}

fn chars_of(s: &str) -> (r: Vec<char>)
    ensures
        r@ == s@,
{
    let mut v: Vec<char> = Vec::new();
    push_str(&mut v, s);
    assert(v@ =~= s@);
    v
}

fn diag_body_exec(msg: &Vec<char>, var: &str, suffix: &Vec<char>) -> (r: Tokens)
    ensures
        r@ == diag_body(msg@, var@, suffix@),
{
    let mut out = Tokens::new();
    std_path_exec(&mut out, "compile_error");
    out.push_alone('!');
    out.push(Tok::Open(Delim::Paren));
    std_path_exec(&mut out, "concat");
    out.push_alone('!');
    out.push(Tok::Open(Delim::Paren));
    out.push(string_lit_tok(msg));
    out.push_alone(',');
    std_path_exec(&mut out, "stringify");
    out.push_alone('!');
    out.push(Tok::Open(Delim::Paren));
    out.push_alone('$');
    out.push(Tok::Open(Delim::Paren));
    out.push_alone('$');
    out.push_ident(var);
    out.push(Tok::Close(Delim::Paren));
    out.push_alone('*');
    out.push(Tok::Close(Delim::Paren));
    out.push_alone(',');
    out.push(string_lit_tok(suffix));
    out.push(Tok::Close(Delim::Paren));
    out.push(Tok::Close(Delim::Paren));
    out.push_alone(';');
    assert(out@ =~= diag_body(msg@, var@, suffix@));
    out
}

fn error_rule_exec(name: &String, e: &(MacroMatcher, Vec<MacroMatcher>)) -> (r: MacroRule)
    requires
        e.1@.len() > 0,
    ensures
        r@ == error_rule(name@, (e.0@, matcher_views(e.1@))),
{
    let msg = mismatch_text(name, &e.1);
    let body = diag_body_exec(&msg, "unexpected", &chars_of("` instead"));
    MacroRule { pattern: e.0.duplicate(), body }
}

} // verus!

verus! {

fn any_call_stack_fallback() -> (r: MacroRule)
    ensures
        r@ == fallback_rules()[0],
{
    let mut m = MacroMatcher::new();
    let mut t = Tokens::new();
    t.push_alone('@');
    t.push_ident(crate::tokens::marker());
    t.push_alone('|');
    t.push_alone(':');
    t.push_alone('|');
    crate::compile::push_ts(&mut m, &t);
    m.push(MacroMatch::RepetitionOpen);
    m.push(MacroMatch::Token(Tok::Open(Delim::Paren)));
    m.push(crate::compile::tt_var_exec("call_stack".to_string()));
    m.push(MacroMatch::Token(Tok::Close(Delim::Paren)));
    m.push(
        MacroMatch::RepetitionClose(
            crate::pattern::MacroRepetition {
                rep_sep: Some(crate::pattern::MacroRepSep { token: Tok::alone('|') }),
                rep_op: crate::pattern::MacroRepOp::Times,
                op_joint: false,
            },
        ),
    );
    let mut d = Tokens::new();
    d.push_alone('|');
    d.push_alone(':');
    d.push_alone('|');
    crate::compile::push_ts(&mut m, &d);
    let mut un = MacroMatcher::new();
    crate::compile::push_rep_tt(&mut un, "unexpected".to_string());
    crate::compile::push_frame_m(&mut m, &un, "_un2".to_string());
    crate::compile::push_rep_tt(&mut m, "data_stack".to_string());
    assert(t@ =~= head() + divider());
    assert(d@ =~= divider());
    assert(m@ =~= fallback_rules()[0].pattern);
    let body = diag_body_exec(&chars_of("cannot match `"), "unexpected", &chars_of("`"));
    MacroRule { pattern: m, body }
}

fn fallbacks() -> (r: Vec<MacroRule>)
    ensures
        out_views(r@) == fallback_rules(),
{
    let mut v: Vec<MacroRule> = Vec::new();
    v.push(any_call_stack_fallback());

    let mut t = Tokens::new();
    t.push_alone('@');
    t.push_ident(crate::tokens::marker());
    t.push_alone('|');
    t.push_alone(':');
    t.push_alone('|');
    t.push_alone('|');
    t.push_alone(':');
    t.push_alone('|');
    t.push_alone('|');
    let mut m = MacroMatcher::new();
    crate::compile::push_ts(&mut m, &t);
    assert(t@ =~= head() + divider() + divider() + seq![p('|')]);
    let mut msg = chars_of("base case has no result");
    crate::text::push_str(&mut msg, " - this is a bug in the cps compiler; please report it on the issue tracker of the cps crate");
    let mut b = Tokens::new();
    std_path_exec(&mut b, "compile_error");
    b.push_alone('!');
    b.push(Tok::Open(Delim::Paren));
    b.push(string_lit_tok(&msg));
    b.push(Tok::Close(Delim::Paren));
    b.push_alone(';');
    assert(b@ =~= fallback_rules()[1].body);
    v.push(MacroRule { pattern: m, body: b });

    let mut t3 = Tokens::new();
    t3.push_alone('@');
    t3.push_ident(crate::tokens::marker());
    let mut m3 = MacroMatcher::new();
    crate::compile::push_ts(&mut m3, &t3);
    crate::compile::push_rep_tt(&mut m3, "everything".to_string());
    assert(t3@ =~= head());
    let mut suffix = chars_of("`");
    crate::text::push_str(&mut suffix, " - this is a bug in the cps compiler; please report it on the issue tracker of the cps crate");
    let b3 = diag_body_exec(
        &chars_of("cps macro evaluation resulted in an invalid state: `"),
        "everything",
        &suffix,
    );
    v.push(MacroRule { pattern: m3, body: b3 });
    assert(out_views(v@) =~= fallback_rules());
    v
}

fn entry_rule_exec(name: &String) -> (r: MacroRule)
    ensures
        r@ == entry_rule(name@),
{
    let mut m = MacroMatcher::new();
    crate::compile::push_rep_tt(&mut m, "input".to_string());
    let mut b = Tokens::new();
    b.push(Tok::Ident(name.clone()));
    b.push_alone('!');
    b.push(Tok::Open(Delim::Brace));
    b.push_alone('@');
    b.push_ident(crate::tokens::marker());
    b.push_alone('|');
    b.push_alone(':');
    b.push_alone('|');
    b.push_alone('|');
    b.push_alone(':');
    b.push_alone('|');
    let mut c = Tokens::new();
    crate::compile::push_clone_t(&mut c, "input".to_string());
    crate::compile::push_frame_t(&mut b, &c);
    b.push_alone('|');
    b.push(Tok::Close(Delim::Brace));
    assert(m@ =~= rep_tt("input"@));
    assert(b@ =~= entry_rule(name@).body);
    MacroRule { pattern: m, body: b }
}

} // verus!

verus! {

proof fn lemma_prefix_step(name: Seq<char>, rv: Seq<RuleV>, ri: int)
    requires
        0 <= ri < rv.len(),
    ensures
        flat_rules(name, rv.subrange(0, ri + 1)) == flat_rules(name, rv.subrange(0, ri)) + cps_rules(name, rv[ri]),
        all_debug(rv.subrange(0, ri + 1)) == all_debug(rv.subrange(0, ri)) + debug_entries(
            rv[ri],
            rv[ri].bindings.len() as int,
        ),
{
    assert(rv.subrange(0, ri + 1).drop_last() =~= rv.subrange(0, ri));
}

/// Compiles the rules of the rule set `name`: every rule's protocol rules in
/// declaration order, one diagnostic rule per distinct dispatch point, the
/// fallback rules, and the entry rule.
pub fn compile_rules(name: &String, rules: &Vec<CPSMacroRule>) -> (r: Vec<MacroRule>)
    ensures
        out_views(r@) == compiled_rules(name@, rule_views(rules@)),
{
    let ghost rv = rule_views(rules@);
    let mut out: Vec<MacroRule> = Vec::new();
    let mut entries: Vec<(MacroMatcher, Vec<MacroMatcher>)> = Vec::new();
    let n = rules.len();
    let mut ri: usize = 0;
    assert(out_views(out@) =~= flat_rules(name@, rv.subrange(0, 0)));
    assert(entry_views(entries@) =~= collate(all_debug(rv.subrange(0, 0))));
    while ri < n
        invariant
            ri <= n == rules@.len() == rv.len(),
            rv == rule_views(rules@),
            out_views(out@) == flat_rules(name@, rv.subrange(0, ri as int)),
            entry_views(entries@) == collate(all_debug(rv.subrange(0, ri as int))),
            entries_nonempty(entry_views(entries@)),
        decreases n - ri,
    {
        let (mut cr, dbg) = add_cps(name, &rules[ri]);
        proof {
            lemma_prefix_step(name@, rv, ri as int);
            assert(rules@[ri as int]@ == rv[ri as int]);
        }
        let ghost before = out_views(out@);
        let ghost crv = out_views(cr@);
        out.append(&mut cr);
        assert(out_views(out@) =~= before + crv);
        let ghost base = all_debug(rv.subrange(0, ri as int));
        let ghost dv = pair_views(dbg@);
        let mut di: usize = 0;
        assert(base + dv.subrange(0, 0) =~= base);
        while di < dbg.len()
            invariant
                di <= dbg@.len() == dv.len(),
                dv == pair_views(dbg@),
                entry_views(entries@) == collate(base + dv.subrange(0, di as int)),
                entries_nonempty(entry_views(entries@)),
            decreases dbg@.len() - di,
        {
            let ghost xs = base + dv.subrange(0, di as int);
            add_entry_exec(&mut entries, dbg[di].0.duplicate(), dbg[di].1.duplicate());
            assert((base + dv.subrange(0, di + 1)).drop_last() =~= xs);
            assert((base + dv.subrange(0, di + 1)).last() == dv[di as int]);
            di = di + 1;
        }
        assert(dv.subrange(0, dv.len() as int) =~= dv);
        ri = ri + 1;
    }
    assert(rv.subrange(0, n as int) =~= rv);
    let ghost ev = entry_views(entries@);
    let ghost flat = out_views(out@);
    let mut k: usize = 0;
    assert(flat + error_rules(name@, ev).subrange(0, 0) =~= flat);
    while k < entries.len()
        invariant
            k <= entries@.len() == ev.len(),
            ev == entry_views(entries@),
            entries_nonempty(ev),
            out_views(out@) == flat + error_rules(name@, ev).subrange(0, k as int),
        decreases entries@.len() - k,
    {
        assert(ev[k as int].1.len() > 0);
        let e = error_rule_exec(name, &entries[k]);
        let ghost before = out_views(out@);
        out.push(e);
        assert(out_views(out@) =~= before.push(e@));
        assert(error_rules(name@, ev).subrange(0, k + 1) =~= error_rules(name@, ev).subrange(0, k as int).push(
            error_rule(name@, ev[k as int]),
        ));
        k = k + 1;
    }
    assert(error_rules(name@, ev).subrange(0, ev.len() as int) =~= error_rules(name@, ev));
    let mut fb = fallbacks();
    let ghost before = out_views(out@);
    out.append(&mut fb);
    assert(out_views(out@) =~= before + fallback_rules());
    let er = entry_rule_exec(name);
    let ghost before2 = out_views(out@);
    out.push(er);
    assert(out_views(out@) =~= before2.push(entry_rule(name@)));
    assert(out_views(out@) =~= compiled_rules(name@, rv));
    out
}

} // verus!
