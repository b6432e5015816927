use vstd::prelude::*;
use crate::compile::{out_views, MacroRule, MacroRuleV};
use crate::error::CpsError;
use crate::pattern::{begins_with_marker, render};
use crate::rule::{group, group_close, group_end, parse_rules, parse_rules_spec, rule_views, rules_tokens, CPSMacroRule, RuleV};
use crate::ruleset::{compile_rules, compiled_rules};
use crate::tokens::{id, is_punct, p, pj, Delim, Tok, TokV, Tokens};

verus! {

/// A `macro_rules!` definition: its outer attributes, its name, and its rules.
#[derive(Debug)]
pub struct MacroItem {
    pub attrs: Tokens,
    pub name: String,
    pub rules_delim: Delim,
    pub rules: Vec<CPSMacroRule>,
    /// Whether a `;` follows the last rule.
    pub trailing: bool,
    /// Whether a `;` follows the definition.
    pub semi: bool,
}

pub struct MacroItemV {
    pub attrs: Seq<TokV>,
    pub name: Seq<char>,
    pub rules_delim: Delim,
    pub rules: Seq<RuleV>,
    pub trailing: bool,
    pub semi: bool,
}

impl View for MacroItem {
    type V = MacroItemV;

    open spec fn view(&self) -> MacroItemV {
        MacroItemV {
            attrs: self.attrs@,
            name: self.name@,
            rules_delim: self.rules_delim,
            rules: rule_views(self.rules@),
            trailing: self.trailing,
            semi: self.semi,
        }
    }
}

/// The tokens that write a `macro_rules!` definition.
pub open spec fn item_tokens(it: MacroItemV) -> Seq<TokV> {
    it.attrs + seq![id("macro_rules"@), p('!'), id(it.name)] + group(it.rules_delim, rules_tokens(it.rules, it.trailing))
        + if it.semi {
        seq![p(';')]
    } else {
        seq![]
    }
}

/// The tokens that write one compiled rule.
pub open spec fn out_rule_tokens(r: MacroRuleV) -> Seq<TokV> {
    group(Delim::Paren, render(r.pattern)) + seq![pj('='), p('>')] + group(Delim::Brace, r.body) + seq![p(';')]
}

pub open spec fn out_rules_tokens(rs: Seq<MacroRuleV>) -> Seq<TokV>
    decreases rs.len(),
{
    if rs.len() == 0 {
        seq![]
    } else {
        out_rules_tokens(rs.drop_last()) + out_rule_tokens(rs.last())
    }
}

/// The definition that a `macro_rules!` definition compiles to: the same
/// attributes and name, with the compiled rules, and the `;` that followed
/// the definition, if one did.
pub open spec fn cps_output(it: MacroItemV) -> Seq<TokV> {
    it.attrs + seq![id("macro_rules"@), p('!'), id(it.name), TokV::Open(Delim::Brace)] + out_rules_tokens(
        compiled_rules(it.name, it.rules),
    ) + seq![TokV::Close(Delim::Brace)] + if it.semi {
        seq![p(';')]
    } else {
        seq![]
    }
}

/// Skipping the outer attributes `#[..]` from `i`: the position after them.
pub open spec fn skip_attrs(t: Seq<TokV>, i: int) -> Result<int, CpsError>
    decreases t.len() - i,
{
    if 0 <= i < t.len() && is_punct(t[i], '#') {
        if t.len() - i < 2 || t[i + 1] != TokV::Open(Delim::Bracket) {
            Err(CpsError::NotMacroRules)
        } else {
            match group_close(t, i + 1) {
                Err(e) => Err(e),
                Ok(c) => if i < c < t.len() {
                    skip_attrs(t, c + 1)
                } else {
                    Err(CpsError::Unbalanced)
                },
            }
        }
    } else {
        Ok(i)
    }
}

/// The grammar of a `macro_rules!` definition with its outer attributes.
pub open spec fn parse_item_spec(t: Seq<TokV>) -> Result<MacroItemV, CpsError> {
    match skip_attrs(t, 0) {
        Err(e) => Err(e),
        Ok(i) => if t.len() - i < 4 || t[i] != id("macro_rules"@) || t[i + 1] != p('!') || !(t[i + 2] is Ident) {
            Err(CpsError::NotMacroRules)
        } else {
            match group_close(t, i + 3) {
                Err(e) => Err(e),
                Ok(c) => match parse_rules_spec(t.subrange(i + 4, c)) {
                    Err(e) => Err(e),
                    Ok((rules, trailing)) => {
                        let it = MacroItemV {
                            attrs: t.subrange(0, i),
                            name: t[i + 2]->Ident_0,
                            rules_delim: t[i + 3]->Open_0,
                            rules,
                            trailing,
                            semi: false,
                        };
                        if c + 1 == t.len() {
                            Ok(it)
                        } else if c + 2 == t.len() && t[c + 1] == p(';') {
                            Ok(MacroItemV { semi: true, ..it })
                        } else {
                            Err(CpsError::NotMacroRules)
                        }
                    },
                },
            }
        },
    }
}

proof fn lemma_item_tokens(s: Seq<TokV>, it: MacroItemV, i: int, close: int)
    requires
        0 <= i,
        i + 3 < close < s.len(),
        it.attrs == s.subrange(0, i),
        s[i] == id("macro_rules"@),
        s[i + 1] == p('!'),
        s[i + 2] == id(it.name),
        s[i + 3] == TokV::Open(it.rules_delim),
        s[close] == TokV::Close(it.rules_delim),
        rules_tokens(it.rules, it.trailing) == s.subrange(i + 4, close),
        it.semi ==> close + 2 == s.len() && s[close + 1] == p(';'),
        !it.semi ==> close + 1 == s.len(),
    ensures
        item_tokens(it) == s,
{
    assert(group(it.rules_delim, rules_tokens(it.rules, it.trailing)) =~= s.subrange(i + 3, close + 1));
    assert(seq![id("macro_rules"@), p('!'), id(it.name)] =~= s.subrange(i, i + 3));
    if it.semi {
        assert(s =~= s.subrange(0, i) + s.subrange(i, i + 3) + s.subrange(i + 3, close + 1) + seq![p(';')]);
    } else {
        assert(s =~= s.subrange(0, i) + s.subrange(i, i + 3) + s.subrange(i + 3, close + 1) + Seq::<TokV>::empty());
    }
}

/// Reads a `macro_rules!` definition with its outer attributes.
#[verifier::rlimit(90)]
pub fn parse_item(t: &Tokens) -> (r: Result<MacroItem, CpsError>)
    ensures
        match r {
            Ok(it) => {
                &&& item_tokens(it@) == t@
                &&& forall|k: int| 0 <= k < it@.rules.len() ==> !begins_with_marker(#[trigger] it@.rules[k].pattern)
                &&& parse_item_spec(t@) == Ok::<MacroItemV, CpsError>(it@)
            },
            Err(e) => parse_item_spec(t@) == Err::<MacroItemV, CpsError>(e),
        },
{
    let n = t.len();
    let mut i: usize = 0;
    while i < n && t.get(i).is_punct_char('#')
        invariant
            i <= n == t@.len(),
            skip_attrs(t@, 0) == skip_attrs(t@, i as int),
        decreases n - i,
    {
        if n - i < 2 || !t.get(i + 1).same(&Tok::Open(Delim::Bracket)) {
            return Err(CpsError::NotMacroRules);
        }
        i = group_end(t, i + 1)? + 1;
    }
    assert(skip_attrs(t@, 0) == Ok::<int, CpsError>(i as int));
    if n - i < 4 || !t.get(i).is_ident_str("macro_rules") || !t.get(i + 1).same(&Tok::alone('!')) {
        return Err(CpsError::NotMacroRules);
    }
    let name = match t.get(i + 2) {
        Tok::Ident(s) => s.clone(),
        _ => {
            return Err(CpsError::NotMacroRules);
        },
    };
    let open = i + 3;
    let close = group_end(t, open)?;
    let rules_delim = match t.get(open) {
        Tok::Open(d) => *d,
        _ => Delim::Paren,
    };
    let (rules, trailing) = parse_rules(&t.slice(open + 1, close))?;
    let semi = if close + 1 == n {
        false
    } else if close + 2 == n && t.get(close + 1).same(&Tok::alone(';')) {
        true
    } else {
        return Err(CpsError::NotMacroRules);
    };
    let it = MacroItem { attrs: t.slice(0, i), name, rules_delim, rules, trailing, semi };
    proof {
        lemma_item_tokens(t@, it@, i as int, close as int);
    }
    Ok(it)
}

/// Appends the tokens that write the compiled rules `rs`.
pub fn render_rules(rs: &Vec<MacroRule>, out: &mut Tokens)
    ensures
        final(out)@ == old(out)@ + out_rules_tokens(out_views(rs@)),
{
    let ghost o = out@;
    let ghost v = out_views(rs@);
    let mut k: usize = 0;
    assert(v.subrange(0, 0) =~= Seq::<MacroRuleV>::empty());
    while k < rs.len()
        invariant
            k <= rs@.len() == v.len(),
            v == out_views(rs@),
            out@ == o + out_rules_tokens(v.subrange(0, k as int)),
        decreases rs@.len() - k,
    {
        let r = &rs[k];
        let ghost before = out@;
        out.push(Tok::Open(Delim::Paren));
        r.pattern.to_tokens(out);
        out.push(Tok::Close(Delim::Paren));
        out.push(Tok::joint('='));
        out.push_alone('>');
        out.push(Tok::Open(Delim::Brace));
        out.extend(&r.body);
        out.push(Tok::Close(Delim::Brace));
        out.push_alone(';');
        assert(r@ == v[k as int]);
        assert(out@ =~= before + out_rule_tokens(v[k as int]));
        assert(v.subrange(0, k + 1).drop_last() =~= v.subrange(0, k as int));
        k = k + 1;
    }
    assert(v.subrange(0, v.len() as int) =~= v);
}

/// Compiles a `macro_rules!` definition whose rules may hold sequential
/// bindings into one whose rules hold none.
pub fn impl_cps(item: &Tokens) -> (r: Result<Tokens, CpsError>)
    ensures
        match r {
            Ok(out) => parse_item_spec(item@) is Ok && out@ == cps_output(parse_item_spec(item@)->Ok_0),
            Err(e) => parse_item_spec(item@) == Err::<MacroItemV, CpsError>(e),
        },
        r is Ok ==> item_tokens(parse_item_spec(item@)->Ok_0) == item@,
{
    let it = parse_item(item)?;
    let rules = compile_rules(&it.name, &it.rules);
    let mut out = it.attrs.duplicate();
    out.push_ident("macro_rules");
    out.push_alone('!');
    out.push(Tok::Ident(it.name.clone()));
    out.push(Tok::Open(Delim::Brace));
    render_rules(&rules, &mut out);
    out.push(Tok::Close(Delim::Brace));
    let ghost body = it@.attrs + seq![id("macro_rules"@), p('!'), id(it@.name), TokV::Open(Delim::Brace)]
        + out_rules_tokens(compiled_rules(it@.name, it@.rules)) + seq![TokV::Close(Delim::Brace)];
    assert(out@ =~= body);
    if it.semi {
        out.push_alone(';');
        assert(out@ =~= body + seq![p(';')]);
    } else {
        assert(out@ =~= body + Seq::<TokV>::empty());
    }
    Ok(out)
}

} // verus!
