use vstd::prelude::*;
use crate::names::{arg_name, arg_name_exec, res_name, res_name_exec};
use crate::pattern::{MacroMatch, MacroMatcher, MacroRepOp, MacroRepSep, MacroRepetition, MacroVariableIdentifier, MatchV};
use crate::rule::{CPSMacroRule, LetBinding, LetBindingV, RuleV, binding_views};
use crate::tokens::{id, marker, marker_name, p, pj, Delim, Tok, TokV, Tokens};

verus! {

/// Literal tokens as matcher elements.
pub open spec fn mt(s: Seq<TokV>) -> Seq<MatchV> {
    s.map_values(|t: TokV| MatchV::Token(t))
}

/// `@_cps`, the reserved marker that opens every protocol invocation.
pub open spec fn head() -> Seq<TokV> {
    seq![p('@'), id(marker_name())]
}

/// `|:|`, which divides the marker, the call stack and the data stack.
pub open spec fn divider() -> Seq<TokV> {
    seq![p('|'), p(':'), p('|')]
}

pub open spec fn tt_var(n: Seq<char>) -> MatchV {
    MatchV::Var(n, "tt"@)
}

/// `$( $n:tt )*`
pub open spec fn rep_tt(n: Seq<char>) -> Seq<MatchV> {
    seq![MatchV::RepOpen, tt_var(n), MatchV::RepClose(None, MacroRepOp::Times, false)]
}

/// `$( $n )*`
pub open spec fn clone_t(n: Seq<char>) -> Seq<TokV> {
    seq![p('$'), TokV::Open(Delim::Paren), p('$'), id(n), TokV::Close(Delim::Paren), p('*')]
}

/// A data stack frame pattern `({ v }, { d })`.
pub open spec fn frame_m(v: Seq<MatchV>, d: Seq<MatchV>) -> Seq<MatchV> {
    mt(seq![TokV::Open(Delim::Paren), TokV::Open(Delim::Brace)]) + v + mt(
        seq![TokV::Close(Delim::Brace), p(','), TokV::Open(Delim::Brace)],
    ) + d + mt(seq![TokV::Close(Delim::Brace), TokV::Close(Delim::Paren)])
}

/// A data stack frame `({ v }, { v })` holding a value and its duplicate.
pub open spec fn frame_t(v: Seq<TokV>) -> Seq<TokV> {
    seq![TokV::Open(Delim::Paren), TokV::Open(Delim::Brace)] + v + seq![
        TokV::Close(Delim::Brace),
        p(','),
        TokV::Open(Delim::Brace),
    ] + v + seq![TokV::Close(Delim::Brace), TokV::Close(Delim::Paren)]
}

/// The frames that hold the resolved results of all bindings, the latest
/// first; `m` counts how many of them are written.
pub open spec fn res_frames(ls: Seq<LetBindingV>, m: int) -> Seq<MatchV>
    decreases m,
{
    if m <= 0 || m > ls.len() {
        seq![]
    } else {
        res_frames(ls, m - 1) + frame_m(ls[ls.len() - m].pattern, rep_tt(res_name((m - 1) as nat)))
    }
}

/// The pattern of the base case: no continuation is waiting and every binding has resolved.
pub open spec fn base_pattern(r: RuleV) -> Seq<MatchV> {
    mt(head() + divider() + divider()) + res_frames(r.bindings, r.bindings.len() as int) + frame_m(
        r.pattern,
        rep_tt("_cps_dud_pattern"@),
    ) + mt(seq![p('|')])
}

/// The tokens that invoke `h` with the marker, the call stack `prog`, and the
/// data stack whose top frame holds `res` above `stack`.
pub open spec fn next_step(h: Seq<TokV>, prog: Seq<TokV>, res: Seq<TokV>, stack: Seq<TokV>) -> Seq<TokV> {
    h + seq![p('!'), TokV::Open(Delim::Brace)] + head() + divider() + prog + divider() + frame_t(res) + stack
        + seq![TokV::Close(Delim::Brace)]
}

/// The pattern of the inner base case: every binding has resolved and a continuation is waiting.
pub open spec fn inner_pattern(r: RuleV) -> Seq<MatchV> {
    mt(head() + divider() + seq![TokV::Open(Delim::Paren)]) + seq![tt_var("_cps_next_head"@)] + mt(
        seq![TokV::Close(Delim::Paren)],
    ) + seq![MatchV::RepOpen] + mt(seq![p('|'), TokV::Open(Delim::Paren)]) + seq![
        tt_var("_cps_next_tail"@),
    ] + mt(seq![TokV::Close(Delim::Paren)]) + seq![MatchV::RepClose(None, MacroRepOp::Times, false)] + mt(
        divider(),
    ) + res_frames(r.bindings, r.bindings.len() as int) + frame_m(r.pattern, rep_tt("_p"@)) + mt(
        seq![p('|')],
    ) + rep_tt("_cps_stack"@)
}

/// The body of the inner base case: it hands the rule's body to the waiting continuation.
pub open spec fn inner_body(r: RuleV) -> Seq<TokV> {
    next_step(
        seq![p('$'), id("_cps_next_head"@)],
        seq![
            p('$'),
            TokV::Open(Delim::Paren),
            TokV::Open(Delim::Paren),
            p('$'),
            id("_cps_next_tail"@),
            TokV::Close(Delim::Paren),
            TokV::Close(Delim::Paren),
            p('|'),
            p('*'),
        ],
        r.body,
        clone_t("_cps_stack"@),
    )
}

/// A compiled rule: a pattern and the tokens it rewrites to.
#[derive(Debug)]
pub struct MacroRule {
    pub pattern: MacroMatcher,
    pub body: Tokens,
}

pub struct MacroRuleV {
    pub pattern: Seq<MatchV>,
    pub body: Seq<TokV>,
}

impl View for MacroRule {
    type V = MacroRuleV;

    open spec fn view(&self) -> MacroRuleV {
        MacroRuleV { pattern: self.pattern@, body: self.body@ }
    }
}

pub open spec fn out_views(s: Seq<MacroRule>) -> Seq<MacroRuleV> {
    s.map_values(|r: MacroRule| r@)
}

fn push_t(m: &mut MacroMatcher, t: Tok)
    ensures
        final(m)@ == old(m)@ + mt(seq![t@]),
{
    m.push(MacroMatch::Token(t));
    assert(final(m)@ =~= old(m)@ + mt(seq![t@]));
}

pub(crate) fn push_ts(m: &mut MacroMatcher, ts: &Tokens)
    ensures
        final(m)@ == old(m)@ + mt(ts@),
{
    let ghost o = m@;
    let mut i: usize = 0;
    while i < ts.len()
        invariant
            i <= ts@.len(),
            m@ == o + mt(ts@.subrange(0, i as int)),
        decreases ts@.len() - i,
    {
        m.push(MacroMatch::Token(ts.get(i).duplicate()));
        assert(mt(ts@.subrange(0, i + 1)) =~= mt(ts@.subrange(0, i as int)).push(MatchV::Token(ts@[i as int])));
        i = i + 1;
    }
    assert(ts@.subrange(0, ts@.len() as int) =~= ts@);
}

fn extend_m(m: &mut MacroMatcher, o: &MacroMatcher)
    ensures
        final(m)@ == old(m)@ + o@,
{
    let ghost s = m@;
    let mut i: usize = 0;
    while i < o.matches.len()
        invariant
            i <= o@.len(),
            m@ == s + o@.subrange(0, i as int),
        decreases o@.len() - i,
    {
        m.push(o.matches[i].duplicate());
        assert(o@.subrange(0, i + 1) =~= o@.subrange(0, i as int).push(o@[i as int]));
        i = i + 1;
    }
    assert(o@.subrange(0, o@.len() as int) =~= o@);
}

pub(crate) fn tt_var_exec(n: String) -> (r: MacroMatch)
    ensures
        r@ == tt_var(n@),
{
    MacroMatch::Identifier(MacroVariableIdentifier { identifier: n, macro_frag_spec: "tt".to_string() })
}

pub(crate) fn push_rep_tt(m: &mut MacroMatcher, n: String)
    ensures
        final(m)@ == old(m)@ + rep_tt(n@),
{
    let ghost o = m@;
    m.push(MacroMatch::RepetitionOpen);
    m.push(tt_var_exec(n));
    m.push(MacroMatch::RepetitionClose(MacroRepetition { rep_sep: None, rep_op: MacroRepOp::Times, op_joint: false }));
    assert(m@ =~= o + rep_tt(n@));
}

pub(crate) fn push_frame_m(m: &mut MacroMatcher, v: &MacroMatcher, d: String)
    ensures
        final(m)@ == old(m)@ + frame_m(v@, rep_tt(d@)),
{
    let ghost o = m@;
    push_t(m, Tok::Open(Delim::Paren));
    push_t(m, Tok::Open(Delim::Brace));
    extend_m(m, v);
    push_t(m, Tok::Close(Delim::Brace));
    push_t(m, Tok::alone(','));
    push_t(m, Tok::Open(Delim::Brace));
    push_rep_tt(m, d);
    push_t(m, Tok::Close(Delim::Brace));
    push_t(m, Tok::Close(Delim::Paren));
    assert(m@ =~= o + frame_m(v@, rep_tt(d@)));
}

pub(crate) fn head_toks(out: &mut Tokens)
    ensures
        final(out)@ == old(out)@ + head(),
{
    let ghost o = out@;
    out.push_alone('@');
    out.push_ident(marker());
    assert(out@ =~= o + head());
}

pub(crate) fn divider_toks(out: &mut Tokens)
    ensures
        final(out)@ == old(out)@ + divider(),
{
    let ghost o = out@;
    out.push_alone('|');
    out.push_alone(':');
    out.push_alone('|');
    assert(out@ =~= o + divider());
}

fn push_frames_res(m: &mut MacroMatcher, ls: &Vec<LetBinding>)
    ensures
        final(m)@ == old(m)@ + res_frames(binding_views(ls@), ls@.len() as int),
{
    let ghost o = m@;
    let ghost lv = binding_views(ls@);
    let n = ls.len();
    let mut j: usize = 0;
    while j < n
        invariant
            j <= n == ls@.len() == lv.len(),
            lv == binding_views(ls@),
            m@ == o + res_frames(lv, j as int),
        decreases n - j,
    {
        push_frame_m(m, &ls[n - 1 - j].pattern, res_name_exec(j));
        assert(m@ =~= o + res_frames(lv, j + 1));
        j = j + 1;
    }
}

/// Builds the base case of a rule.
fn base_case(rule: &CPSMacroRule) -> (r: MacroRule)
    ensures
        r@ == (MacroRuleV { pattern: base_pattern(rule@), body: rule@.body }),
{
    let mut m = MacroMatcher::new();
    let mut t = Tokens::new();
    head_toks(&mut t);
    divider_toks(&mut t);
    divider_toks(&mut t);
    push_ts(&mut m, &t);
    push_frames_res(&mut m, &rule.let_bindings);
    push_frame_m(&mut m, &rule.pattern, "_cps_dud_pattern".to_string());
    push_t(&mut m, Tok::alone('|'));
    assert(m@ =~= base_pattern(rule@));
    MacroRule { pattern: m, body: rule.impl_tokens.duplicate() }
}

} // verus!

verus! {

pub(crate) fn push_clone_t(out: &mut Tokens, n: String)
    ensures
        final(out)@ == old(out)@ + clone_t(n@),
{
    let ghost o = out@;
    out.push_alone('$');
    out.push(Tok::Open(Delim::Paren));
    out.push_alone('$');
    out.push(Tok::Ident(n));
    out.push(Tok::Close(Delim::Paren));
    out.push_alone('*');
    assert(out@ =~= o + clone_t(n@));
}

pub(crate) fn push_frame_t(out: &mut Tokens, v: &Tokens)
    ensures
        final(out)@ == old(out)@ + frame_t(v@),
{
    let ghost o = out@;
    out.push(Tok::Open(Delim::Paren));
    out.push(Tok::Open(Delim::Brace));
    out.extend(v);
    out.push(Tok::Close(Delim::Brace));
    out.push_alone(',');
    out.push(Tok::Open(Delim::Brace));
    out.extend(v);
    out.push(Tok::Close(Delim::Brace));
    out.push(Tok::Close(Delim::Paren));
    assert(out@ =~= o + frame_t(v@));
}

/// The tokens of the next turn of the protocol: invoke `next_head` with the
/// marker, the call stack `next_program`, and the data stack that has
/// `({ impl_tokens }, { impl_tokens })` on top of `next_stack`.
pub fn build_next_step(next_head: &Tokens, next_program: &Tokens, impl_tokens: &Tokens, next_stack: &Tokens) -> (r:
    Tokens)
    ensures
        r@ == next_step(next_head@, next_program@, impl_tokens@, next_stack@),
{
    let mut out = next_head.duplicate();
    out.push_alone('!');
    out.push(Tok::Open(Delim::Brace));
    head_toks(&mut out);
    divider_toks(&mut out);
    out.extend(next_program);
    divider_toks(&mut out);
    push_frame_t(&mut out, impl_tokens);
    out.extend(next_stack);
    out.push(Tok::Close(Delim::Brace));
    assert(out@ =~= next_step(next_head@, next_program@, impl_tokens@, next_stack@));
    out
}

/// Builds the inner base case of a rule.
fn inner_base_case(rule: &CPSMacroRule) -> (r: MacroRule)
    ensures
        r@ == (MacroRuleV { pattern: inner_pattern(rule@), body: inner_body(rule@) }),
{
    let mut m = MacroMatcher::new();
    let mut t = Tokens::new();
    head_toks(&mut t);
    divider_toks(&mut t);
    t.push(Tok::Open(Delim::Paren));
    push_ts(&mut m, &t);
    m.push(tt_var_exec("_cps_next_head".to_string()));
    push_t(&mut m, Tok::Close(Delim::Paren));
    m.push(MacroMatch::RepetitionOpen);
    push_t(&mut m, Tok::alone('|'));
    push_t(&mut m, Tok::Open(Delim::Paren));
    m.push(tt_var_exec("_cps_next_tail".to_string()));
    push_t(&mut m, Tok::Close(Delim::Paren));
    m.push(MacroMatch::RepetitionClose(MacroRepetition { rep_sep: None, rep_op: MacroRepOp::Times, op_joint: false }));
    let mut d = Tokens::new();
    divider_toks(&mut d);
    push_ts(&mut m, &d);
    push_frames_res(&mut m, &rule.let_bindings);
    push_frame_m(&mut m, &rule.pattern, "_p".to_string());
    push_t(&mut m, Tok::alone('|'));
    push_rep_tt(&mut m, "_cps_stack".to_string());
    assert(m@ =~= inner_pattern(rule@));

    let mut h = Tokens::new();
    h.push_alone('$');
    h.push_ident("_cps_next_head");
    let mut prog = Tokens::new();
    prog.push_alone('$');
    prog.push(Tok::Open(Delim::Paren));
    prog.push(Tok::Open(Delim::Paren));
    prog.push_alone('$');
    prog.push_ident("_cps_next_tail");
    prog.push(Tok::Close(Delim::Paren));
    prog.push(Tok::Close(Delim::Paren));
    prog.push_alone('|');
    prog.push_alone('*');
    let mut stack = Tokens::new();
    push_clone_t(&mut stack, "_cps_stack".to_string());
    let body = build_next_step(&h, &prog, &rule.impl_tokens, &stack);
    assert(h@ =~= seq![p('$'), id("_cps_next_head"@)]);
    assert(prog@ =~= seq![
        p('$'),
        TokV::Open(Delim::Paren),
        TokV::Open(Delim::Paren),
        p('$'),
        id("_cps_next_tail"@),
        TokV::Close(Delim::Paren),
        TokV::Close(Delim::Paren),
        p('|'),
        p('*'),
    ]);
    assert(stack@ =~= clone_t("_cps_stack"@));
    MacroRule { pattern: m, body }
}

} // verus!

verus! {

/// The frames of the results of bindings `j .. i`, the latest first.
pub open spec fn acc_frames(ls: Seq<LetBindingV>, i: int, j: int) -> Seq<MatchV>
    decreases i - j,
{
    if j < 0 || j >= i || i > ls.len() {
        seq![]
    } else {
        acc_frames(ls, i, j + 1) + frame_m(ls[j].pattern, rep_tt(arg_name(j as nat)))
    }
}

/// The frames that re-emit the results of bindings `j .. i` from their duplicates, the latest first.
pub open spec fn clone_frames(i: int, j: int) -> Seq<TokV>
    decreases i - j,
{
    if j < 0 || j >= i {
        seq![]
    } else {
        clone_frames(i, j + 1) + frame_t(clone_t(arg_name(j as nat)))
    }
}

/// The start of a pattern that accepts any call stack.
pub open spec fn any_stack_prefix() -> Seq<MatchV> {
    mt(head() + divider()) + seq![MatchV::RepOpen] + mt(seq![TokV::Open(Delim::Paren)]) + seq![
        tt_var("_cps_next"@),
    ] + mt(seq![TokV::Close(Delim::Paren)]) + seq![MatchV::RepClose(Some(p('|')), MacroRepOp::Times, false)]
        + mt(divider())
}

/// The pattern of step `i`: bindings `0 .. i` have resolved and binding `i` is to be dispatched.
pub open spec fn inter_pattern(r: RuleV, i: int) -> Seq<MatchV> {
    any_stack_prefix() + acc_frames(r.bindings, i, 0) + frame_m(r.pattern, rep_tt("_cps_arg"@)) + mt(
        seq![p('|')],
    ) + rep_tt("_cps_stack"@)
}

/// The start of the body of a step: the invocation of the binding's target
/// with this rule, `name`, pushed on the call stack.
pub open spec fn call_head(name: Seq<char>, b: LetBindingV) -> Seq<TokV> {
    (if b.indirect {
        seq![p('$')]
    } else {
        seq![]
    }) + b.path + seq![p('!'), TokV::Open(Delim::Brace)] + head() + divider() + seq![
        TokV::Open(Delim::Paren),
        id(name),
        TokV::Close(Delim::Paren),
        p('$'),
        TokV::Open(Delim::Paren),
        p('|'),
        TokV::Open(Delim::Paren),
        p('$'),
        id("_cps_next"@),
        TokV::Close(Delim::Paren),
        TokV::Close(Delim::Paren),
        p('*'),
    ] + divider()
}

/// The data stack of the body of step `i`: a new part holding the binding's
/// arguments, above the results so far and the rule's input.
pub open spec fn call_stack_part(b: LetBindingV, i: int) -> Seq<TokV> {
    frame_t(b.args) + seq![p('|')] + clone_frames(i, 0) + frame_t(clone_t("_cps_arg"@)) + seq![p('|')]
        + clone_t("_cps_stack"@) + seq![TokV::Close(Delim::Brace)]
}

/// The body of step `i`: invoke the target of binding `i` on its arguments,
/// with this rule pushed on the call stack as the continuation and the
/// results so far kept on the data stack.
pub open spec fn inter_body(name: Seq<char>, r: RuleV, i: int) -> Seq<TokV> {
    call_head(name, r.bindings[i]) + call_stack_part(r.bindings[i], i)
}

fn call_head_exec(name: &String, b: &LetBinding, out: &mut Tokens)
    ensures
        final(out)@ == old(out)@ + call_head(name@, b@),
{
    let ghost o = out@;
    if b.macro_name_indirection {
        out.push_alone('$');
    }
    out.extend(&b.macro_path);
    out.push_alone('!');
    out.push(Tok::Open(Delim::Brace));
    head_toks(out);
    divider_toks(out);
    out.push(Tok::Open(Delim::Paren));
    out.push(Tok::Ident(name.clone()));
    out.push(Tok::Close(Delim::Paren));
    out.push_alone('$');
    out.push(Tok::Open(Delim::Paren));
    out.push_alone('|');
    out.push(Tok::Open(Delim::Paren));
    out.push_alone('$');
    out.push_ident("_cps_next");
    out.push(Tok::Close(Delim::Paren));
    out.push(Tok::Close(Delim::Paren));
    out.push_alone('*');
    divider_toks(out);
    assert(out@ =~= o + call_head(name@, b@));
}

fn call_stack_part_exec(b: &LetBinding, i: usize, out: &mut Tokens)
    ensures
        final(out)@ == old(out)@ + call_stack_part(b@, i as int),
{
    let ghost o = out@;
    push_frame_t(out, &b.macro_args);
    out.push_alone('|');
    push_clone_frames(out, i);
    let mut c = Tokens::new();
    push_clone_t(&mut c, "_cps_arg".to_string());
    push_frame_t(out, &c);
    out.push_alone('|');
    push_clone_t(out, "_cps_stack".to_string());
    out.push(Tok::Close(Delim::Brace));
    assert(out@ =~= o + call_stack_part(b@, i as int));
}

fn push_acc_frames(m: &mut MacroMatcher, ls: &Vec<LetBinding>, i: usize)
    requires
        i <= ls@.len(),
    ensures
        final(m)@ == old(m)@ + acc_frames(binding_views(ls@), i as int, 0),
{
    let ghost o = m@;
    let ghost lv = binding_views(ls@);
    let mut j = i;
    while j > 0
        invariant
            j <= i <= ls@.len() == lv.len(),
            lv == binding_views(ls@),
            m@ == o + acc_frames(lv, i as int, j as int),
        decreases j,
    {
        j = j - 1;
        push_frame_m(m, &ls[j].pattern, arg_name_exec(j));
        assert(m@ =~= o + acc_frames(lv, i as int, j as int));
    }
}

fn push_clone_frames(out: &mut Tokens, i: usize)
    ensures
        final(out)@ == old(out)@ + clone_frames(i as int, 0),
{
    let ghost o = out@;
    let mut j = i;
    while j > 0
        invariant
            j <= i,
            out@ == o + clone_frames(i as int, j as int),
        decreases j,
    {
        j = j - 1;
        let mut c = Tokens::new();
        push_clone_t(&mut c, arg_name_exec(j));
        push_frame_t(out, &c);
        assert(out@ =~= o + clone_frames(i as int, j as int));
    }
}

fn push_any_stack_prefix(m: &mut MacroMatcher)
    ensures
        final(m)@ == old(m)@ + any_stack_prefix(),
{
    let ghost o = m@;
    let mut t = Tokens::new();
    head_toks(&mut t);
    divider_toks(&mut t);
    push_ts(m, &t);
    m.push(MacroMatch::RepetitionOpen);
    push_t(m, Tok::Open(Delim::Paren));
    m.push(tt_var_exec("_cps_next".to_string()));
    push_t(m, Tok::Close(Delim::Paren));
    m.push(
        MacroMatch::RepetitionClose(
            MacroRepetition {
                rep_sep: Some(MacroRepSep { token: Tok::alone('|') }),
                rep_op: MacroRepOp::Times,
                op_joint: false,
            },
        ),
    );
    let mut d = Tokens::new();
    divider_toks(&mut d);
    push_ts(m, &d);
    assert(m@ =~= o + any_stack_prefix());
}

/// Builds step `i` of a rule named `name`.
fn inter_case(name: &String, rule: &CPSMacroRule, i: usize) -> (r: MacroRule)
    requires
        i < rule@.bindings.len(),
    ensures
        r@ == (MacroRuleV { pattern: inter_pattern(rule@, i as int), body: inter_body(name@, rule@, i as int) }),
{
    let mut m = MacroMatcher::new();
    push_any_stack_prefix(&mut m);
    push_acc_frames(&mut m, &rule.let_bindings, i);
    push_frame_m(&mut m, &rule.pattern, "_cps_arg".to_string());
    push_t(&mut m, Tok::alone('|'));
    push_rep_tt(&mut m, "_cps_stack".to_string());
    assert(m@ =~= inter_pattern(rule@, i as int));

    let b = &rule.let_bindings[i];
    assert(b@ == rule@.bindings[i as int]);
    let mut out = Tokens::new();
    call_head_exec(name, b, &mut out);
    call_stack_part_exec(b, i, &mut out);
    assert(out@ =~= inter_body(name@, rule@, i as int));
    MacroRule { pattern: m, body: out }
}

/// The frames below the unexpected one in the diagnostic pattern of step `i`:
/// the results that were expected before it, and the rule's own input.
pub open spec fn vframes(ls: Seq<LetBindingV>, pat: Seq<MatchV>, i: int, m: int) -> Seq<MatchV>
    decreases m,
{
    if m <= 0 {
        seq![]
    } else {
        vframes(ls, pat, i, m - 1) + frame_m(
            if m - 1 < i - 1 {
                ls[i - 2 - (m - 1)].pattern
            } else {
                pat
            },
            rep_tt(res_name((m - 1) as nat)),
        )
    }
}

/// The pattern of the dispatch point of step `i` with a top frame of any shape.
pub open spec fn debug_pattern(r: RuleV, i: int) -> Seq<MatchV> {
    any_stack_prefix() + frame_m(rep_tt("unexpected"@), rep_tt("_cps_un2"@)) + vframes(
        r.bindings,
        r.pattern,
        i,
        i,
    ) + mt(seq![p('|')]) + rep_tt("_cps_stack"@)
}

/// The shape that the top frame of the dispatch point of step `i` was expected to have.
pub open spec fn expected_pattern(r: RuleV, i: int) -> Seq<MatchV> {
    if i == 0 {
        r.pattern
    } else {
        r.bindings[i - 1].pattern
    }
}

/// Builds the diagnostic pattern of step `i` and the shape it expected.
fn debug_case(rule: &CPSMacroRule, i: usize) -> (r: (MacroMatcher, MacroMatcher))
    requires
        i < rule@.bindings.len(),
    ensures
        r.0@ == debug_pattern(rule@, i as int),
        r.1@ == expected_pattern(rule@, i as int),
{
    let ghost lv = rule@.bindings;
    let mut m = MacroMatcher::new();
    push_any_stack_prefix(&mut m);
    let mut un = MacroMatcher::new();
    push_rep_tt(&mut un, "unexpected".to_string());
    let ghost m0 = m@;
    push_frame_m(&mut m, &un, "_cps_un2".to_string());
    let ghost m1 = m@;
    let mut j: usize = 0;
    while j < i
        invariant
            j <= i < rule@.bindings.len(),
            lv == rule@.bindings,
            m@ == m1 + vframes(lv, rule@.pattern, i as int, j as int),
        decreases i - j,
    {
        if j + 1 < i {
            assert(rule.let_bindings@[i - 2 - j]@ == lv[i - 2 - j]);
            push_frame_m(&mut m, &rule.let_bindings[i - 2 - j].pattern, res_name_exec(j));
        } else {
            push_frame_m(&mut m, &rule.pattern, res_name_exec(j));
        }
        assert(m@ =~= m1 + vframes(lv, rule@.pattern, i as int, j + 1));
        j = j + 1;
    }
    push_t(&mut m, Tok::alone('|'));
    push_rep_tt(&mut m, "_cps_stack".to_string());
    assert(m@ =~= debug_pattern(rule@, i as int));
    let expected = if i == 0 {
        rule.pattern.duplicate()
    } else {
        assert(rule.let_bindings@[i - 1]@ == lv[i - 1]);
        rule.let_bindings[i - 1].pattern.duplicate()
    };
    (m, expected)
}

} // verus!

verus! {

pub open spec fn inters(name: Seq<char>, r: RuleV, m: int) -> Seq<MacroRuleV>
    decreases m,
{
    if m <= 0 {
        seq![]
    } else {
        inters(name, r, m - 1).push(MacroRuleV { pattern: inter_pattern(r, m - 1), body: inter_body(name, r, m - 1) })
    }
}

/// The rules that one rule of a rule set named `name` compiles to: the base
/// case, the inner base case, then one step per binding in declaration order.
pub open spec fn cps_rules(name: Seq<char>, r: RuleV) -> Seq<MacroRuleV> {
    seq![
        MacroRuleV { pattern: base_pattern(r), body: r.body },
        MacroRuleV { pattern: inner_pattern(r), body: inner_body(r) },
    ] + inters(name, r, r.bindings.len() as int)
}

/// The diagnostic dispatch points of a rule, each with the shape it expected.
pub open spec fn debug_entries(r: RuleV, m: int) -> Seq<(Seq<MatchV>, Seq<MatchV>)>
    decreases m,
{
    if m <= 0 {
        seq![]
    } else {
        debug_entries(r, m - 1).push((debug_pattern(r, m - 1), expected_pattern(r, m - 1)))
    }
}

pub open spec fn pair_views(s: Seq<(MacroMatcher, MacroMatcher)>) -> Seq<(Seq<MatchV>, Seq<MatchV>)> {
    s.map_values(|x: (MacroMatcher, MacroMatcher)| (x.0@, x.1@))
}

/// Compiles one rule of the rule set `macro_name`: the rules that implement
/// it through the protocol, and its diagnostic dispatch points.
pub fn add_cps(macro_name: &String, arm: &CPSMacroRule) -> (r: (Vec<MacroRule>, Vec<(MacroMatcher, MacroMatcher)>))
    ensures
        out_views(r.0@) == cps_rules(macro_name@, arm@),
        pair_views(r.1@) == debug_entries(arm@, arm@.bindings.len() as int),
        r.0@.len() == arm@.bindings.len() + 2,
{
    let mut rules: Vec<MacroRule> = Vec::new();
    let mut debug: Vec<(MacroMatcher, MacroMatcher)> = Vec::new();
    rules.push(base_case(arm));
    rules.push(inner_base_case(arm));
    let k = arm.let_bindings.len();
    let ghost first = seq![
        MacroRuleV { pattern: base_pattern(arm@), body: arm@.body },
        MacroRuleV { pattern: inner_pattern(arm@), body: inner_body(arm@) },
    ];
    assert(out_views(rules@) =~= first + inters(macro_name@, arm@, 0));
    assert(pair_views(debug@) =~= debug_entries(arm@, 0));
    let mut i: usize = 0;
    while i < k
        invariant
            i <= k == arm@.bindings.len(),
            out_views(rules@) == first + inters(macro_name@, arm@, i as int),
            pair_views(debug@) == debug_entries(arm@, i as int),
            rules@.len() == i + 2,
        decreases k - i,
    {
        let c = inter_case(macro_name, arm, i);
        let ghost cv = c@;
        let ghost before = out_views(rules@);
        rules.push(c);
        assert(out_views(rules@) =~= before.push(cv));
        assert(inters(macro_name@, arm@, i + 1) == inters(macro_name@, arm@, i as int).push(cv));
        assert(out_views(rules@) =~= first + inters(macro_name@, arm@, i + 1));
        let d = debug_case(arm, i);
        let ghost dv = (d.0@, d.1@);
        debug.push(d);
        assert(pair_views(debug@) =~= debug_entries(arm@, i + 1));
        i = i + 1;
    }
    (rules, debug)
}

} // verus!

