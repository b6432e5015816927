use vstd::prelude::*;
use crate::error::CpsError;
use crate::pattern::{
    is_one_element, one_element, begins_with_cps_marker, begins_with_marker, parse_matcher, parse_matcher_spec, render, MacroMatcher,
    MatchV,
};
use crate::tokens::{id, is_punct, p, pj, Delim, Tok, TokV, Tokens};

verus! {

pub open spec fn let_name() -> Seq<char> {
    seq!['l', 'e', 't']
}

pub open spec fn in_name() -> Seq<char> {
    seq!['i', 'n']
}

pub open spec fn group(d: Delim, inner: Seq<TokV>) -> Seq<TokV> {
    seq![TokV::Open(d)] + inner + seq![TokV::Close(d)]
}

/// How far a token sequence nests: opened groups minus closed ones.
pub open spec fn depth(s: Seq<TokV>) -> int
    decreases s.len(),
{
    if s.len() == 0 {
        0
    } else {
        depth(s.drop_last()) + match s.last() {
            TokV::Open(_) => 1int,
            TokV::Close(_) => -1int,
            _ => 0int,
        }
    }
}

/// `j` closes the group that `t[i]` opens.
pub open spec fn closes(t: Seq<TokV>, i: int, j: int) -> bool {
    &&& 0 <= i < j < t.len()
    &&& t[i] is Open
    &&& t[j] == TokV::Close(t[i]->Open_0)
    &&& depth(t.subrange(i + 1, j)) == 0
    &&& forall|k: int| i + 1 <= k <= j ==> depth(#[trigger] t.subrange(i + 1, k)) >= 0
}

/// A sequential binding `let pattern = $? path ! ( args ) in`.
pub struct LetBindingV {
    pub pattern: Seq<MatchV>,
    pub eq_joint: bool,
    pub indirect: bool,
    pub path: Seq<TokV>,
    pub args_delim: Delim,
    pub args: Seq<TokV>,
}

/// A rule `( pattern ) => let .. in .. { body }`.
pub struct RuleV {
    pub pattern_delim: Delim,
    pub pattern: Seq<MatchV>,
    pub bindings: Seq<LetBindingV>,
    pub body_delim: Delim,
    pub body: Seq<TokV>,
}

pub open spec fn binding_tokens(b: LetBindingV) -> Seq<TokV> {
    seq![id(let_name())] + render(b.pattern) + seq![TokV::Punct('=', b.eq_joint)] + (if b.indirect {
        seq![p('$')]
    } else {
        seq![]
    }) + b.path + seq![p('!')] + group(b.args_delim, b.args) + seq![id(in_name())]
}

pub open spec fn bindings_tokens(bs: Seq<LetBindingV>) -> Seq<TokV>
    decreases bs.len(),
{
    if bs.len() == 0 {
        seq![]
    } else {
        bindings_tokens(bs.drop_last()) + binding_tokens(bs.last())
    }
}

/// The tokens that write a rule.
pub open spec fn rule_tokens(r: RuleV) -> Seq<TokV> {
    group(r.pattern_delim, render(r.pattern)) + seq![pj('='), p('>')] + bindings_tokens(r.bindings)
        + group(r.body_delim, r.body)
}

/// The tokens that write a list of rules, separated by `;`.
pub open spec fn rules_tokens(rs: Seq<RuleV>, trailing: bool) -> Seq<TokV>
    decreases rs.len(),
{
    if rs.len() == 0 {
        seq![]
    } else if rs.len() == 1 {
        rule_tokens(rs[0]) + if trailing {
            seq![p(';')]
        } else {
            seq![]
        }
    } else {
        rules_tokens(rs.drop_last(), false) + seq![p(';')] + rules_tokens(seq![rs.last()], trailing)
    }
}

/// A path made of identifiers and `:` characters.
pub open spec fn is_path(s: Seq<TokV>) -> bool {
    s.len() > 0 && forall|k: int| 0 <= k < s.len() ==> (#[trigger] s[k] is Ident || s[k] == p(':') || s[k] == pj(':'))
}

/// A sequential binding of a rule.
#[derive(Debug)]
pub struct LetBinding {
    pub pattern: MacroMatcher,
    pub eq_joint: bool,
    /// The name invoked is the value of a capture (`$name!(..)`) rather than a literal path.
    pub macro_name_indirection: bool,
    pub macro_path: Tokens,
    pub args_delim: Delim,
    pub macro_args: Tokens,
}

impl View for LetBinding {
    type V = LetBindingV;

    open spec fn view(&self) -> LetBindingV {
        LetBindingV {
            pattern: self.pattern@,
            eq_joint: self.eq_joint,
            indirect: self.macro_name_indirection,
            path: self.macro_path@,
            args_delim: self.args_delim,
            args: self.macro_args@,
        }
    }
}

/// A rule of a rule set, with its sequential bindings.
#[derive(Debug)]
pub struct CPSMacroRule {
    pub pattern_brace: Delim,
    pub pattern: MacroMatcher,
    pub let_bindings: Vec<LetBinding>,
    pub impl_brace: Delim,
    pub impl_tokens: Tokens,
}

pub open spec fn binding_views(s: Seq<LetBinding>) -> Seq<LetBindingV> {
    s.map_values(|b: LetBinding| b@)
}

impl View for CPSMacroRule {
    type V = RuleV;

    open spec fn view(&self) -> RuleV {
        RuleV {
            pattern_delim: self.pattern_brace,
            pattern: self.pattern@,
            bindings: binding_views(self.let_bindings@),
            body_delim: self.impl_brace,
            body: self.impl_tokens@,
        }
    }
}

pub open spec fn delim_of(t: TokV) -> Delim {
    match t {
        TokV::Open(d) => d,
        TokV::Close(d) => d,
        _ => Delim::Paren,
    }
}

/// Scanning from `k` at nesting `level` for the token that closes a group opened with `d`.
pub open spec fn scan_close(t: Seq<TokV>, d: Delim, k: int, level: nat) -> Result<int, CpsError>
    decreases t.len() - k,
{
    if k < 0 || k >= t.len() {
        Err(CpsError::Unbalanced)
    } else {
        match t[k] {
            TokV::Open(_) => scan_close(t, d, k + 1, level + 1),
            TokV::Close(c) => if level == 0 {
                if c == d {
                    Ok(k)
                } else {
                    Err(CpsError::Unbalanced)
                }
            } else {
                scan_close(t, d, k + 1, (level - 1) as nat)
            },
            _ => scan_close(t, d, k + 1, level),
        }
    }
}

/// The position of the token that closes the group opened at `i`.
pub open spec fn group_close(t: Seq<TokV>, i: int) -> Result<int, CpsError> {
    if 0 <= i < t.len() && t[i] is Open && t[i]->Open_0 != Delim::Invisible {
        scan_close(t, t[i]->Open_0, i + 1, 0)
    } else {
        Err(CpsError::ExpectedGroup)
    }
}

/// Finds the token that closes the group opened at `i`; a group without
/// delimiters is no group here.
pub fn group_end(t: &Tokens, i: usize) -> (r: Result<usize, CpsError>)
    requires
        i < t@.len(),
    ensures
        match r {
            Ok(j) => closes(t@, i as int, j as int) && group_close(t@, i as int) == Ok::<int, CpsError>(j as int),
            Err(e) => (e == CpsError::ExpectedGroup || e == CpsError::Unbalanced) && group_close(t@, i as int)
                == Err::<int, CpsError>(e),
        },
        t@[i as int] == TokV::Open(Delim::Invisible) ==> r == Err::<usize, CpsError>(CpsError::ExpectedGroup),
{
    let d = match t.get(i) {
        Tok::Open(Delim::Invisible) => {
            return Err(CpsError::ExpectedGroup);
        },
        Tok::Open(d) => *d,
        _ => {
            return Err(CpsError::ExpectedGroup);
        },
    };
    let n = t.len();
    let mut level: usize = 0;
    let mut k: usize = i + 1;
    assert(t@.subrange(i + 1, i + 1) =~= Seq::<TokV>::empty());
    while k < n
        invariant
            i < k <= n == t@.len(),
            t@[i as int] == TokV::Open(d),
            level as int == depth(t@.subrange(i + 1, k as int)),
            level < k - i,
            group_close(t@, i as int) == scan_close(t@, d, k as int, level as nat),
            forall|q: int| i + 1 <= q <= k ==> depth(#[trigger] t@.subrange(i + 1, q)) >= 0,
        decreases t@.len() - k,
    {
        let ghost s = t@.subrange(i + 1, k as int + 1);
        assert(s.drop_last() =~= t@.subrange(i + 1, k as int));
        match t.get(k) {
            Tok::Open(_) => {
                if level == usize::MAX {
                    return Err(CpsError::Unbalanced);
                }
                level = level + 1;
            },
            Tok::Close(c) => {
                if level == 0 {
                    if *c == d {
                        return Ok(k);
                    } else {
                        return Err(CpsError::Unbalanced);
                    }
                }
                level = level - 1;
            },
            _ => {},
        }
        k = k + 1;
    }
    Err(CpsError::Unbalanced)
}

} // verus!

verus! {

proof fn lemma_binding_tokens(s: Seq<TokV>, b: LetBindingV, i: int, q: int, ps: int, k: int, close: int)
    requires
        0 <= i < q < ps <= k,
        k + 1 < close < s.len() - 1,
        s[i] == id(let_name()),
        render(b.pattern) == s.subrange(i + 1, q),
        s[q] == TokV::Punct('=', b.eq_joint),
        b.indirect ==> ps == q + 2 && s[q + 1] == p('$'),
        !b.indirect ==> ps == q + 1,
        b.path == s.subrange(ps, k),
        s[k] == p('!'),
        s[k + 1] == TokV::Open(b.args_delim),
        s[close] == TokV::Close(b.args_delim),
        b.args == s.subrange(k + 2, close),
        s[close + 1] == id(in_name()),
    ensures
        binding_tokens(b) == s.subrange(i, close + 2),
{
    let ind: Seq<TokV> = if b.indirect {
        seq![p('$')]
    } else {
        seq![]
    };
    assert(ind =~= s.subrange(q + 1, ps));
    assert(group(b.args_delim, b.args) =~= s.subrange(k + 1, close + 1));
    assert(s.subrange(i, close + 2) =~= seq![s[i]] + s.subrange(i + 1, q) + seq![s[q]] + s.subrange(q + 1, ps)
        + s.subrange(ps, k) + seq![s[k]] + s.subrange(k + 1, close + 1) + seq![s[close + 1]]);
}

pub open spec fn is_path_tok_spec(t: TokV) -> bool {
    t is Ident || t == p(':') || t == pj(':')
}

/// Scanning from `k` at nesting `level` for the `=` that ends a binding's
/// pattern; the end of `t` if there is none.
pub open spec fn scan_eq(t: Seq<TokV>, k: int, level: nat) -> Result<int, CpsError>
    decreases t.len() - k,
{
    if k < 0 || k >= t.len() {
        Ok(t.len() as int)
    } else if level == 0 && is_punct(t[k], '=') {
        Ok(k)
    } else {
        match t[k] {
            TokV::Open(_) => scan_eq(t, k + 1, level + 1),
            TokV::Close(_) => if level == 0 {
                Err(CpsError::Unbalanced)
            } else {
                scan_eq(t, k + 1, (level - 1) as nat)
            },
            _ => scan_eq(t, k + 1, level),
        }
    }
}

/// The end of the path that starts at `k`.
pub open spec fn path_end(t: Seq<TokV>, k: int) -> int
    decreases t.len() - k,
{
    if k < 0 || k >= t.len() || !is_path_tok_spec(t[k]) {
        k
    } else {
        path_end(t, k + 1)
    }
}

/// The grammar of a binding `let pattern = $? path ! ( args ) in` whose
/// `let` stands at `i`: the binding and the position after `in`, or the error.
pub open spec fn parse_let_spec(t: Seq<TokV>, i: int) -> Result<(LetBindingV, int), CpsError> {
    match scan_eq(t, i + 1, 0) {
        Err(e) => Err(e),
        Ok(q) => if q >= t.len() || q == i + 1 {
            Err(CpsError::MalformedLet)
        } else {
            match parse_matcher_spec(t.subrange(i + 1, q)) {
                Err(e) => Err(e),
                Ok(pattern) => if !one_element(pattern) {
                    Err(CpsError::MalformedLet)
                } else {
                    let eq_joint = match t[q] {
                        TokV::Punct(_, j) => j,
                        _ => false,
                    };
                    let indirect = q + 1 < t.len() && t[q + 1] == p('$');
                    let ps = if indirect {
                        q + 2
                    } else {
                        q + 1
                    };
                    let k = path_end(t, ps);
                    if k == ps || t.len() - k < 3 || t[k] != p('!') {
                        Err(CpsError::MalformedLet)
                    } else {
                        match group_close(t, k + 1) {
                            Err(_) => Err(CpsError::MalformedLet),
                            Ok(c) => if c + 1 >= t.len() || t[c + 1] != id(in_name()) {
                                Err(CpsError::MalformedLet)
                            } else {
                                Ok(
                                    (
                                        LetBindingV {
                                            pattern,
                                            eq_joint,
                                            indirect,
                                            path: t.subrange(ps, k),
                                            args_delim: t[k + 1]->Open_0,
                                            args: t.subrange(k + 2, c),
                                        },
                                        c + 2,
                                    ),
                                )
                            },
                        }
                    }
                },
            }
        },
    }
}

fn is_path_tok(t: &Tok) -> (r: bool)
    ensures
        r == (t@ is Ident || t@ == p(':') || t@ == pj(':')),
{
    match t {
        Tok::Ident(_) => true,
        Tok::Punct(c, _) => *c == ':',
        _ => false,
    }
}

/// Reads `let pattern = $? path ! ( args ) in` starting at the `let` at `i`;
/// returns the binding and the position after `in`.
pub fn parse_let(t: &Tokens, i: usize) -> (r: Result<(LetBinding, usize), CpsError>)
    requires
        i < t@.len(),
        t@[i as int] == id(let_name()),
    ensures
        match r {
            Ok((b, e)) => {
                &&& i < e <= t@.len()
                &&& binding_tokens(b@) == t@.subrange(i as int, e as int)
                &&& is_path(b@.path)
                &&& b@.pattern.len() > 0
                &&& parse_matcher_spec(render(b@.pattern)) == Ok::<Seq<MatchV>, CpsError>(b@.pattern)
                &&& parse_let_spec(t@, i as int) == Ok::<(LetBindingV, int), CpsError>((b@, e as int))
            },
            Err(e) => parse_let_spec(t@, i as int) == Err::<(LetBindingV, int), CpsError>(e),
        },
{
    let n = t.len();
    // the pattern runs up to the first `=` outside any group
    let mut q: usize = i + 1;
    let mut level: usize = 0;
    while q < n && !(level == 0 && t.get(q).is_punct_char('='))
        invariant
            i < q <= n == t@.len(),
            level < q - i,
            scan_eq(t@, i + 1, 0) == scan_eq(t@, q as int, level as nat),
        decreases n - q,
    {
        match t.get(q) {
            Tok::Open(_) => {
                if level == usize::MAX {
                    return Err(CpsError::Unbalanced);
                }
                level = level + 1;
            },
            Tok::Close(_) => {
                if level == 0 {
                    return Err(CpsError::Unbalanced);
                }
                level = level - 1;
            },
            _ => {},
        }
        q = q + 1;
    }
    if q >= n || q == i + 1 {
        return Err(CpsError::MalformedLet);
    }
    let pat_toks = t.slice(i + 1, q);
    let pattern = parse_matcher(&pat_toks)?;
    if !is_one_element(&pattern) {
        return Err(CpsError::MalformedLet);
    }
    let eq_joint = match t.get(q) {
        Tok::Punct(_, j) => *j,
        _ => false,
    };
    let mut k = q + 1;
    let indirect = k < n && t.get(k).same(&Tok::alone('$'));
    if indirect {
        k = k + 1;
    }
    let path_start = k;
    while k < n && is_path_tok(t.get(k))
        invariant
            path_start <= k <= n == t@.len(),
            path_end(t@, path_start as int) == path_end(t@, k as int),
            forall|m: int| path_start <= m < k ==> (#[trigger] t@[m] is Ident || t@[m] == p(':') || t@[m] == pj(':')),
        decreases n - k,
    {
        k = k + 1;
    }
    if k == path_start || n - k < 3 || !t.get(k).same(&Tok::alone('!')) {
        return Err(CpsError::MalformedLet);
    }
    let path = t.slice(path_start, k);
    let open = k + 1;
    let close = match group_end(t, open) {
        Ok(c) => c,
        Err(_) => {
            return Err(CpsError::MalformedLet);
        },
    };
    let args_delim = match t.get(open) {
        Tok::Open(d) => *d,
        _ => Delim::Paren,
    };
    proof {
        reveal_strlit("in");
        assert("in"@ =~= in_name());
    }
    if close + 1 >= n || !t.get(close + 1).is_ident_str("in") {
        return Err(CpsError::MalformedLet);
    }
    let args = t.slice(open + 1, close);
    let e = close + 2;
    let b = LetBinding {
        pattern,
        eq_joint,
        macro_name_indirection: indirect,
        macro_path: path,
        args_delim,
        macro_args: args,
    };
    proof {
        lemma_binding_tokens(t@, b@, i as int, q as int, path_start as int, k as int, close as int);
    }
    Ok((b, e))
}

} // verus!

verus! {

proof fn lemma_bindings_push(bs: Seq<LetBindingV>, b: LetBindingV)
    ensures
        bindings_tokens(bs.push(b)) == bindings_tokens(bs) + binding_tokens(b),
{
    assert(bs.push(b).drop_last() =~= bs);
}

/// Reading `let` clauses from `k` after the clauses `acc`: all of them, and
/// the position of what follows them.
pub open spec fn parse_lets_from(t: Seq<TokV>, k: int, acc: Seq<LetBindingV>) -> Result<
    (Seq<LetBindingV>, int),
    CpsError,
>
    decreases t.len() - k,
{
    if 0 <= k < t.len() && t[k] == id(let_name()) {
        match parse_let_spec(t, k) {
            Err(e) => Err(e),
            Ok((b, e)) => if e > k {
                parse_lets_from(t, e, acc.push(b))
            } else {
                Err(CpsError::MalformedLet)
            },
        }
    } else {
        Ok((acc, k))
    }
}

/// The grammar of a rule whose pattern group opens at `i`: the rule and the
/// position after its body, or the error.
pub open spec fn parse_rule_spec(t: Seq<TokV>, i: int) -> Result<(RuleV, int), CpsError> {
    match group_close(t, i) {
        Err(e) => Err(e),
        Ok(pc) => match parse_matcher_spec(t.subrange(i + 1, pc)) {
            Err(e) => Err(e),
            Ok(pattern) => if begins_with_marker(pattern) {
                Err(CpsError::ReservedMarker)
            } else if t.len() - pc < 3 || t[pc + 1] != pj('=') || t[pc + 2] != p('>') {
                Err(CpsError::ExpectedFatArrow)
            } else {
                match parse_lets_from(t, pc + 3, seq![]) {
                    Err(e) => Err(e),
                    Ok((bindings, k)) => if k >= t.len() {
                        Err(CpsError::ExpectedGroup)
                    } else {
                        match group_close(t, k) {
                            Err(e) => Err(e),
                            Ok(bc) => Ok(
                                (
                                    RuleV {
                                        pattern_delim: t[i]->Open_0,
                                        pattern,
                                        bindings,
                                        body_delim: t[k]->Open_0,
                                        body: t.subrange(k + 1, bc),
                                    },
                                    bc + 1,
                                ),
                            ),
                        }
                    },
                }
            },
        },
    }
}

proof fn lemma_rule_tokens(s: Seq<TokV>, r: RuleV, i: int, pc: int, k: int, bc: int)
    requires
        0 <= i < pc,
        pc + 3 <= k < bc < s.len(),
        s[i] == TokV::Open(r.pattern_delim),
        s[pc] == TokV::Close(r.pattern_delim),
        render(r.pattern) == s.subrange(i + 1, pc),
        s[pc + 1] == pj('='),
        s[pc + 2] == p('>'),
        bindings_tokens(r.bindings) == s.subrange(pc + 3, k),
        s[k] == TokV::Open(r.body_delim),
        s[bc] == TokV::Close(r.body_delim),
        r.body == s.subrange(k + 1, bc),
    ensures
        rule_tokens(r) == s.subrange(i, bc + 1),
{
    assert(group(r.pattern_delim, render(r.pattern)) =~= s.subrange(i, pc + 1));
    assert(seq![pj('='), p('>')] =~= s.subrange(pc + 1, pc + 3));
    assert(group(r.body_delim, r.body) =~= s.subrange(k, bc + 1));
    assert(s.subrange(i, bc + 1) =~= s.subrange(i, pc + 1) + s.subrange(pc + 1, pc + 3) + s.subrange(pc + 3, k)
        + s.subrange(k, bc + 1));
}

/// Reads one rule starting at the group at `i`; returns it and the position after its body.
pub fn parse_rule(t: &Tokens, i: usize) -> (r: Result<(CPSMacroRule, usize), CpsError>)
    requires
        i < t@.len(),
    ensures
        match r {
            Ok((rule, e)) => {
                &&& i < e <= t@.len()
                &&& rule_tokens(rule@) == t@.subrange(i as int, e as int)
                &&& parse_matcher_spec(render(rule@.pattern)) == Ok::<Seq<MatchV>, CpsError>(rule@.pattern)
                &&& !begins_with_marker(rule@.pattern)
                &&& parse_rule_spec(t@, i as int) == Ok::<(RuleV, int), CpsError>((rule@, e as int))
            },
            Err(e) => parse_rule_spec(t@, i as int) == Err::<(RuleV, int), CpsError>(e),
        },
{
    let n = t.len();
    let pclose = group_end(t, i)?;
    let pattern_brace = match t.get(i) {
        Tok::Open(d) => *d,
        _ => Delim::Paren,
    };
    let pattern = parse_matcher(&t.slice(i + 1, pclose))?;
    if begins_with_cps_marker(&pattern) {
        return Err(CpsError::ReservedMarker);
    }
    if n - pclose < 3 || !t.get(pclose + 1).same(&Tok::joint('=')) || !t.get(pclose + 2).same(
        &Tok::alone('>'),
    ) {
        return Err(CpsError::ExpectedFatArrow);
    }
    let mut k = pclose + 3;
    let mut let_bindings: Vec<LetBinding> = Vec::new();
    assert(t@.subrange(k as int, k as int) =~= Seq::<TokV>::empty());
    assert(binding_views(let_bindings@) =~= Seq::<LetBindingV>::empty());
    while k < n && t.get(k).is_ident_str("let")
        invariant
            pclose + 3 <= k <= n == t@.len(),
            bindings_tokens(binding_views(let_bindings@)) == t@.subrange(pclose + 3, k as int),
            parse_lets_from(t@, pclose + 3, seq![]) == parse_lets_from(t@, k as int, binding_views(let_bindings@)),
            group_close(t@, i as int) == Ok::<int, CpsError>(pclose as int),
            parse_matcher_spec(t@.subrange(i + 1, pclose as int)) == Ok::<Seq<MatchV>, CpsError>(pattern@),
            !begins_with_marker(pattern@),
            n - pclose >= 3 && t@[pclose + 1] == pj('=') && t@[pclose + 2] == p('>'),
        decreases n - k,
    {
        proof {
            reveal_strlit("let");
            assert("let"@ =~= let_name());
        }
        let ghost old_bs = binding_views(let_bindings@);
        let (b, e) = match parse_let(t, k) {
            Ok(x) => x,
            Err(e) => {
                assert(parse_lets_from(t@, k as int, old_bs) == Err::<(Seq<LetBindingV>, int), CpsError>(e));
                return Err(e);
            },
        };
        let ghost bv = b@;
        let_bindings.push(b);
        proof {
            assert(binding_views(let_bindings@) =~= old_bs.push(bv));
            lemma_bindings_push(old_bs, bv);
            assert(t@.subrange(pclose + 3, e as int) =~= t@.subrange(pclose + 3, k as int) + t@.subrange(
                k as int,
                e as int,
            ));
        }
        k = e;
    }
    proof {
        reveal_strlit("let");
        assert("let"@ =~= let_name());
    }
    assert(parse_lets_from(t@, k as int, binding_views(let_bindings@)) == Ok::<(Seq<LetBindingV>, int), CpsError>(
        (binding_views(let_bindings@), k as int),
    ));
    if k >= n {
        return Err(CpsError::ExpectedGroup);
    }
    let bclose = group_end(t, k)?;
    let impl_brace = match t.get(k) {
        Tok::Open(d) => *d,
        _ => Delim::Paren,
    };
    let impl_tokens = t.slice(k + 1, bclose);
    let rule = CPSMacroRule { pattern_brace, pattern, let_bindings, impl_brace, impl_tokens };
    proof {
        lemma_rule_tokens(t@, rule@, i as int, pclose as int, k as int, bclose as int);
    }
    Ok((rule, bclose + 1))
}

proof fn lemma_rules_push(rs: Seq<RuleV>, r: RuleV)
    requires
        rs.len() > 0,
    ensures
        rules_tokens(rs.push(r), false) == rules_tokens(rs, false) + seq![p(';')] + rule_tokens(r),
        rules_tokens(rs.push(r), true) == rules_tokens(rs, false) + seq![p(';')] + rule_tokens(r) + seq![
            p(';'),
        ],
{
    assert(rs.push(r).drop_last() =~= rs);
    assert(seq![r][0] == r);
    assert(rules_tokens(seq![r], false) =~= rule_tokens(r));
    assert(rules_tokens(seq![r], true) =~= rule_tokens(r) + seq![p(';')]);
}

proof fn lemma_rules_trailing(v: Seq<RuleV>)
    requires
        v.len() > 0,
    ensures
        rules_tokens(v, true) == rules_tokens(v, false) + seq![p(';')],
{
    if v.len() == 1 {
        assert(rules_tokens(v, true) =~= rules_tokens(v, false) + seq![p(';')]);
    } else {
        assert(rules_tokens(seq![v.last()], true) =~= rules_tokens(seq![v.last()], false) + seq![p(';')]);
        assert(rules_tokens(v, true) =~= rules_tokens(v, false) + seq![p(';')]);
    }
}

/// Reading rules after position `k`, where a rule has just ended, after
/// the rules `acc`: all of them, and whether a `;` follows the last one.
pub open spec fn parse_rules_from(t: Seq<TokV>, k: int, acc: Seq<RuleV>) -> Result<(Seq<RuleV>, bool), CpsError>
    decreases t.len() - k,
{
    if k < 0 || k >= t.len() {
        Ok((acc, false))
    } else if t[k] != p(';') {
        Err(CpsError::ExpectedSemicolon)
    } else if k + 1 == t.len() {
        Ok((acc, true))
    } else {
        match parse_rule_spec(t, k + 1) {
            Err(e) => Err(e),
            Ok((r, e)) => if k < e <= t.len() {
                parse_rules_from(t, e, acc.push(r))
            } else {
                Err(CpsError::ExpectedGroup)
            },
        }
    }
}

/// The grammar of a list of rules separated by `;`.
pub open spec fn parse_rules_spec(t: Seq<TokV>) -> Result<(Seq<RuleV>, bool), CpsError> {
    if t.len() == 0 {
        Ok((seq![], false))
    } else {
        match parse_rule_spec(t, 0) {
            Err(e) => Err(e),
            Ok((r, e)) => parse_rules_from(t, e, seq![r]),
        }
    }
}

pub open spec fn rule_views(s: Seq<CPSMacroRule>) -> Seq<RuleV> {
    s.map_values(|r: CPSMacroRule| r@)
}

/// Reads the rules `rule ; rule ; ...` that make up `t`, and whether a `;` follows the last one.
pub fn parse_rules(t: &Tokens) -> (r: Result<(Vec<CPSMacroRule>, bool), CpsError>)
    ensures
        match r {
            Ok((rs, trailing)) => {
                &&& t@ == rules_tokens(rule_views(rs@), trailing)
                &&& forall|k: int| 0 <= k < rs@.len() ==> !begins_with_marker(#[trigger] rs@[k]@.pattern)
                &&& forall|k: int|
                    0 <= k < rs@.len() ==> parse_matcher_spec(render(#[trigger] rs@[k]@.pattern)) == Ok::<
                        Seq<MatchV>,
                        CpsError,
                    >(rs@[k]@.pattern)
                &&& parse_rules_spec(t@) == Ok::<(Seq<RuleV>, bool), CpsError>((rule_views(rs@), trailing))
            },
            Err(e) => parse_rules_spec(t@) == Err::<(Seq<RuleV>, bool), CpsError>(e),
        },
{
    let n = t.len();
    let mut rs: Vec<CPSMacroRule> = Vec::new();
    if n == 0 {
        assert(t@ =~= rules_tokens(rule_views(rs@), false));
        assert(rule_views(rs@) =~= Seq::<RuleV>::empty());
        return Ok((rs, false));
    }
    let (first, e0) = parse_rule(t, 0)?;
    rs.push(first);
    let mut k = e0;
    assert(rule_views(rs@) =~= seq![rs@[0]@]);
    assert(t@.subrange(0, k as int) == rules_tokens(rule_views(rs@), false));
    while k < n
        invariant
            0 < k <= n == t@.len(),
            rs@.len() > 0,
            t@.subrange(0, k as int) == rules_tokens(rule_views(rs@), false),
            parse_rules_spec(t@) == parse_rules_from(t@, k as int, rule_views(rs@)),
            forall|q: int| 0 <= q < rs@.len() ==> !begins_with_marker(#[trigger] rs@[q]@.pattern),
            forall|q: int|
                0 <= q < rs@.len() ==> parse_matcher_spec(render(#[trigger] rs@[q]@.pattern)) == Ok::<
                    Seq<MatchV>,
                    CpsError,
                >(rs@[q]@.pattern),
        decreases n - k,
    {
        if !t.get(k).same(&Tok::alone(';')) {
            return Err(CpsError::ExpectedSemicolon);
        }
        if k + 1 == n {
            proof {
                lemma_rules_trailing(rule_views(rs@));
                assert(t@ =~= t@.subrange(0, k as int) + seq![p(';')]);
            }
            return Ok((rs, true));
        }
        let (rule, e) = parse_rule(t, k + 1)?;
        let ghost old_v = rule_views(rs@);
        let ghost rv = rule@;
        rs.push(rule);
        proof {
            assert(rule_views(rs@) =~= old_v.push(rv));
            lemma_rules_push(old_v, rv);
            assert(t@.subrange(0, e as int) =~= t@.subrange(0, k as int) + seq![p(';')] + t@.subrange(
                k + 1,
                e as int,
            ));
        }
        k = e;
    }
    assert(t@.subrange(0, n as int) =~= t@);
    Ok((rs, false))
}

} // verus!

verus! {

/// Finds the `)` that closes the parenthesis at `i`.
pub fn parse_paren(t: &Tokens, i: usize) -> (r: Result<usize, CpsError>)
    requires
        i < t@.len(),
    ensures
        match r {
            Ok(j) => t@[i as int] == TokV::Open(Delim::Paren) && closes(t@, i as int, j as int) && group_close(
                t@,
                i as int,
            ) == Ok::<int, CpsError>(j as int),
            Err(e) => (e == CpsError::ExpectedGroup || e == CpsError::Unbalanced) && (t@[i as int] == TokV::Open(
                Delim::Paren,
            ) ==> group_close(t@, i as int) == Err::<int, CpsError>(e)),
        },
        t@[i as int] != TokV::Open(Delim::Paren) ==> r == Err::<usize, CpsError>(CpsError::ExpectedGroup),
{
    if !t.get(i).same(&Tok::Open(Delim::Paren)) {
        return Err(CpsError::ExpectedGroup);
    }
    group_end(t, i)
}

/// Finds the `}` that closes the brace at `i`.
pub fn parse_brace(t: &Tokens, i: usize) -> (r: Result<usize, CpsError>)
    requires
        i < t@.len(),
    ensures
        match r {
            Ok(j) => t@[i as int] == TokV::Open(Delim::Brace) && closes(t@, i as int, j as int) && group_close(
                t@,
                i as int,
            ) == Ok::<int, CpsError>(j as int),
            Err(e) => (e == CpsError::ExpectedGroup || e == CpsError::Unbalanced) && (t@[i as int] == TokV::Open(
                Delim::Brace,
            ) ==> group_close(t@, i as int) == Err::<int, CpsError>(e)),
        },
        t@[i as int] != TokV::Open(Delim::Brace) ==> r == Err::<usize, CpsError>(CpsError::ExpectedGroup),
{
    if !t.get(i).same(&Tok::Open(Delim::Brace)) {
        return Err(CpsError::ExpectedGroup);
    }
    group_end(t, i)
}

} // verus!
