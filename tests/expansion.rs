// A small host rewrite engine that runs compiled rule sets, so that the
// behaviour of compiled macros can be checked without a compiler.
use std::collections::HashMap;

use cps::compile::MacroRule;
use cps::item::parse_item;
use cps::leaf;
use cps::leaf::concat_step;
use cps::protocol::{decode, finish_step, take_argument};
use cps::pattern::MacroMatch;
use cps::ruleset::compile_rules;
use cps::tokens::{Delim, Tok, Tokens};

fn lex(src: &str) -> Vec<Tok> {
    let ts: proc_macro2::TokenStream = src.parse().expect("lexable source");
    let mut out = Vec::new();
    flatten(ts, &mut out);
    out
}

fn flatten(ts: proc_macro2::TokenStream, out: &mut Vec<Tok>) {
    for tt in ts {
        match tt {
            proc_macro2::TokenTree::Ident(i) => out.push(Tok::Ident(i.to_string())),
            proc_macro2::TokenTree::Punct(p) => {
                out.push(Tok::Punct(p.as_char(), p.spacing() == proc_macro2::Spacing::Joint))
            }
            proc_macro2::TokenTree::Literal(l) => out.push(Tok::Lit(l.to_string())),
            proc_macro2::TokenTree::Group(g) => {
                let d = match g.delimiter() {
                    proc_macro2::Delimiter::Parenthesis => Delim::Paren,
                    proc_macro2::Delimiter::Brace => Delim::Brace,
                    proc_macro2::Delimiter::Bracket => Delim::Bracket,
                    proc_macro2::Delimiter::None => {
                        flatten(g.stream(), out);
                        continue;
                    }
                };
                out.push(Tok::Open(d));
                flatten(g.stream(), out);
                out.push(Tok::Close(d));
            }
        }
    }
}

/// What the host writes for tokens: `proc_macro2`'s `Display`.
fn display(t: &[Tok]) -> String {
    let mut stack: Vec<Vec<proc_macro2::TokenTree>> = vec![Vec::new()];
    let mut delims: Vec<proc_macro2::Delimiter> = Vec::new();
    for tok in t {
        let tt: proc_macro2::TokenTree = match tok {
            Tok::Ident(s) => proc_macro2::Ident::new(s, proc_macro2::Span::call_site()).into(),
            Tok::Punct(c, j) => {
                let sp = if *j { proc_macro2::Spacing::Joint } else { proc_macro2::Spacing::Alone };
                proc_macro2::Punct::new(*c, sp).into()
            }
            Tok::Lit(s) => s.parse::<proc_macro2::Literal>().unwrap().into(),
            Tok::Open(d) => {
                delims.push(match d {
                    Delim::Paren => proc_macro2::Delimiter::Parenthesis,
                    Delim::Brace => proc_macro2::Delimiter::Brace,
                    Delim::Bracket => proc_macro2::Delimiter::Bracket,
                    Delim::Invisible => proc_macro2::Delimiter::None,
                });
                stack.push(Vec::new());
                continue;
            }
            Tok::Close(_) => {
                let inner = stack.pop().unwrap();
                proc_macro2::Group::new(delims.pop().unwrap(), inner.into_iter().collect()).into()
            }
        };
        stack.last_mut().unwrap().push(tt);
    }
    stack.pop().unwrap().into_iter().collect::<proc_macro2::TokenStream>().to_string()
}

/// The host's `stringify!`: a string literal holding the text of the tokens.
fn stringify_tok(t: &[Tok]) -> Tok {
    Tok::Lit(proc_macro2::Literal::string(&display(t)).to_string())
}

/// Index just past the token tree starting at `i`.
fn tree_end(t: &[Tok], i: usize) -> usize {
    match &t[i] {
        Tok::Open(_) => {
            let mut depth = 0usize;
            let mut k = i;
            loop {
                match &t[k] {
                    Tok::Open(_) => depth += 1,
                    Tok::Close(_) => {
                        depth -= 1;
                        if depth == 0 {
                            return k + 1;
                        }
                    }
                    _ => {}
                }
                k += 1;
            }
        }
        _ => i + 1,
    }
}

/// Index of the item that closes the pattern group or repetition opened at `i`.
fn pattern_close(p: &[MacroMatch], i: usize) -> usize {
    let mut depth = 0usize;
    let mut k = i;
    loop {
        match &p[k] {
            MacroMatch::Token(Tok::Open(_)) | MacroMatch::RepetitionOpen => depth += 1,
            MacroMatch::Token(Tok::Close(_)) | MacroMatch::RepetitionClose(_) => {
                depth -= 1;
                if depth == 0 {
                    return k;
                }
            }
            _ => {}
        }
        k += 1;
    }
}

#[derive(Clone, Debug)]
enum Binding {
    Leaf(Vec<Tok>),
    Many(Vec<Binding>),
}

type Env = HashMap<String, Binding>;

fn same_tok(a: &Tok, b: &Tok) -> bool {
    match (a, b) {
        (Tok::Punct(x, _), Tok::Punct(y, _)) => x == y,
        (Tok::Ident(x), Tok::Ident(y)) => x == y,
        (Tok::Lit(x), Tok::Lit(y)) => x == y,
        (Tok::Open(x), Tok::Open(y)) => x == y,
        (Tok::Close(x), Tok::Close(y)) => x == y,
        _ => false,
    }
}

fn can_begin_expr(t: &Tok) -> bool {
    match t {
        Tok::Ident(_) | Tok::Lit(_) | Tok::Open(_) => true,
        Tok::Punct(c, _) => matches!(c, '-' | '!' | '&' | '*' | '|' | '<' | ':' | '.'),
        Tok::Close(_) => false,
    }
}

/// Matches one fragment of the given kind at `i`; returns the end.
fn match_fragment(kind: &str, t: &[Tok], i: usize) -> Option<usize> {
    if i >= t.len() || matches!(t[i], Tok::Close(_)) {
        return None;
    }
    match kind {
        "tt" => Some(tree_end(t, i)),
        "ident" => {
            if matches!(t[i], Tok::Ident(_)) {
                Some(i + 1)
            } else {
                None
            }
        }
        "literal" => {
            if matches!(t[i], Tok::Lit(_)) {
                Some(i + 1)
            } else {
                None
            }
        }
        _ => {
            if !can_begin_expr(&t[i]) {
                return None;
            }
            let mut k = i;
            while k < t.len() {
                match &t[k] {
                    Tok::Close(_) => break,
                    Tok::Punct(',', _) | Tok::Punct(';', _) => break,
                    Tok::Punct('=', true) if matches!(t.get(k + 1), Some(Tok::Punct('>', _))) => break,
                    _ => k = tree_end(t, k),
                }
            }
            Some(k)
        }
    }
}

/// Matches the pattern items `p` against the whole of `t`.
fn match_all(p: &[MacroMatch], t: &[Tok], env: &mut Env) -> bool {
    match match_prefix(p, t, 0, env) {
        Some(end) => end == t.len(),
        None => false,
    }
}

/// Matches the pattern items `p` from `i`; returns where the match ends.
fn match_prefix(p: &[MacroMatch], t: &[Tok], mut i: usize, env: &mut Env) -> Option<usize> {
    let mut k = 0;
    while k < p.len() {
        match &p[k] {
            MacroMatch::Token(Tok::Open(d)) => {
                let close = pattern_close(p, k);
                if i >= t.len() || !same_tok(&t[i], &Tok::Open(*d)) {
                    return None;
                }
                let end = tree_end(t, i);
                if !match_all(&p[k + 1..close], &t[i + 1..end - 1], env) {
                    return None;
                }
                i = end;
                k = close + 1;
            }
            MacroMatch::Token(x) => {
                if i >= t.len() || !same_tok(&t[i], x) {
                    return None;
                }
                i += 1;
                k += 1;
            }
            MacroMatch::Identifier(v) => {
                let end = match_fragment(&v.macro_frag_spec, t, i)?;
                env.insert(v.identifier.clone(), Binding::Leaf(t[i..end].to_vec()));
                i = end;
                k += 1;
            }
            MacroMatch::RepetitionOpen => {
                let close = pattern_close(p, k);
                let inner = &p[k + 1..close];
                let (sep, op) = match &p[close] {
                    MacroMatch::RepetitionClose(r) => (r.rep_sep.as_ref().map(|s| s.token.clone()), r.rep_op),
                    _ => unreachable!(),
                };
                let mut runs: Vec<Env> = Vec::new();
                loop {
                    let mut j = i;
                    if !runs.is_empty() {
                        if let Some(s) = &sep {
                            if j >= t.len() || !same_tok(&t[j], s) {
                                break;
                            }
                            j += 1;
                        }
                    }
                    let mut e = Env::new();
                    match match_prefix(inner, t, j, &mut e) {
                        Some(end) if end > j || inner.is_empty() => {
                            runs.push(e);
                            i = end;
                            if end == j || op == cps::pattern::MacroRepOp::Optional {
                                break;
                            }
                        }
                        _ => break,
                    }
                }
                if op == cps::pattern::MacroRepOp::Plus && runs.is_empty() {
                    return None;
                }
                let mut names: Vec<String> = Vec::new();
                collect_names(inner, &mut names);
                for n in names {
                    let items = runs.iter().map(|r| r.get(&n).cloned().unwrap_or(Binding::Many(vec![]))).collect();
                    env.insert(n, Binding::Many(items));
                }
                k = close + 1;
            }
            MacroMatch::RepetitionClose(_) => unreachable!(),
        }
    }
    Some(i)
}

fn collect_names(p: &[MacroMatch], names: &mut Vec<String>) {
    for m in p {
        if let MacroMatch::Identifier(v) = m {
            names.push(v.identifier.clone());
        }
    }
}

/// Substitutes the bindings into rewrite tokens.
fn transcribe(b: &[Tok], env: &Env) -> Vec<Tok> {
    let mut out = Vec::new();
    let mut i = 0;
    while i < b.len() {
        let dollar = matches!(b[i], Tok::Punct('$', _));
        if dollar && matches!(b.get(i + 1), Some(Tok::Ident(_))) {
            let name = match &b[i + 1] {
                Tok::Ident(n) => n.clone(),
                _ => unreachable!(),
            };
            match env.get(&name) {
                Some(Binding::Leaf(ts)) => out.extend(ts.iter().cloned()),
                Some(Binding::Many(_)) => panic!("variable {} is still repeating", name),
                None => out.extend(b[i..i + 2].iter().cloned()),
            }
            i += 2;
        } else if dollar && matches!(b.get(i + 1), Some(Tok::Open(Delim::Paren))) {
            let end = tree_end(b, i + 1);
            let inner = &b[i + 2..end - 1];
            let mut j = end;
            let sep = match &b[j] {
                Tok::Punct(c, _) if matches!(c, '*' | '+' | '?') => None,
                other => {
                    j += 1;
                    Some(other.clone())
                }
            };
            j += 1;
            let mut vars = Vec::new();
            for w in inner.windows(2) {
                if let (Tok::Punct('$', _), Tok::Ident(n)) = (&w[0], &w[1]) {
                    if let Some(Binding::Many(items)) = env.get(n) {
                        vars.push((n.clone(), items.clone()));
                    }
                }
            }
            let count = vars.iter().map(|(_, v)| v.len()).max().unwrap_or(0);
            for k in 0..count {
                if k > 0 {
                    if let Some(s) = &sep {
                        out.push(s.clone());
                    }
                }
                let mut e = env.clone();
                for (n, items) in &vars {
                    if let Some(item) = items.get(k) {
                        e.insert(n.clone(), item.clone());
                    }
                }
                out.extend(transcribe(inner, &e));
            }
            i = j;
        } else {
            out.push(b[i].clone());
            i += 1;
        }
    }
    out
}

struct Engine {
    macros: HashMap<String, Vec<MacroRule>>,
    turns: usize,
    trace: Vec<String>,
}

impl Engine {
    fn new(sources: &[&str]) -> Engine {
        let mut macros = HashMap::new();
        for src in sources {
            let item = parse_item(&Tokens { toks: lex(src) }).expect("a macro_rules! definition");
            let rules = compile_rules(&item.name, &item.rules);
            macros.insert(item.name.clone(), rules);
        }
        Engine { macros, turns: 0, trace: Vec::new() }
    }

    /// Finds the first invocation `path ! ( .. )`: its start, its last path
    /// segment, whether the path names the cps leaves, and its group.
    fn find_call(t: &[Tok]) -> Option<(usize, String, bool, usize, usize)> {
        for i in 0..t.len() {
            if let (Tok::Ident(name), Some(Tok::Punct('!', _)), Some(Tok::Open(_))) = (&t[i], t.get(i + 1), t.get(i + 2)) {
                let mut start = i;
                let mut leaf = false;
                while start >= 3 {
                    match (&t[start - 3], &t[start - 2], &t[start - 1]) {
                        (Tok::Ident(seg), Tok::Punct(':', _), Tok::Punct(':', _)) => {
                            leaf = seg == "cps";
                            start -= 3;
                        }
                        _ => break,
                    }
                }
                let end = tree_end(t, i + 2);
                return Some((start, name.clone(), leaf, i + 2, end));
            }
        }
        None
    }

    fn expand(&mut self, src: &str) -> Result<Vec<Tok>, String> {
        self.expand_toks(lex(src))
    }

    fn expand_toks(&mut self, mut t: Vec<Tok>) -> Result<Vec<Tok>, String> {
        while let Some((start, name, leaf, open, end)) = Engine::find_call(&t) {
            let args = Tokens { toks: t[open + 1..end - 1].to_vec() };
            let out = if leaf {
                self.turns += 1;
                let r = match name.as_str() {
                    "stringify" => decode(&args).and_then(|input| {
                        let arg = take_argument(&input)?;
                        finish_step(&input, &Tokens { toks: vec![stringify_tok(&arg.toks)] })
                    }),
                    "concat" => leaf::concat(&args),
                    _ => return Err(format!("unknown leaf {}", name)),
                };
                r.map_err(|e| format!("{:?}", e))?.toks
            } else if let Some(rules) = self.macros.get(&name) {
                self.turns += 1;
                self.trace.push(format!("{} {}", name, text(&args.toks)));
                let mut found = None;
                for r in rules {
                    let mut env = Env::new();
                    if match_all(&r.pattern.matches, &args.toks, &mut env) {
                        found = Some(transcribe(&r.body.toks, &env));
                        break;
                    }
                }
                found.ok_or_else(|| format!("no rule of {} matched", name))?
            } else if name == "stringify" {
                vec![stringify_tok(&args.toks)]
            } else if name == "concat" {
                let inner = self.expand_toks(args.toks.clone())?;
                concat_step(&Tokens { toks: inner }).map_err(|e| format!("{:?}", e))?.toks
            } else if name == "compile_error" {
                let inner = self.expand_toks(args.toks.clone())?;
                return Err(lit_value(&inner));
            } else {
                return Err(format!("unknown macro {}", name));
            };
            t.splice(start..end, out);
        }
        Ok(t)
    }
}

fn text(t: &[Tok]) -> String {
    cps::text::tokens_text(&Tokens { toks: t.to_vec() }).into_iter().collect()
}

fn lit_value(t: &[Tok]) -> String {
    match t {
        [Tok::Lit(l)] => match litrs::Literal::parse(l.as_str()) {
            Ok(litrs::Literal::String(s)) => s.value().to_string(),
            _ => l.clone(),
        },
        _ => panic!("not a single literal: {:?}", t),
    }
}

/// Evaluates `"a" . to_owned ( ) + "b" + ..` or a single string literal.
fn eval_str(t: &[Tok]) -> String {
    let mut s = String::new();
    let mut i = 0;
    while i < t.len() {
        match &t[i] {
            Tok::Lit(_) => s += &lit_value(&t[i..i + 1]),
            Tok::Punct('.', _) => i += 3,
            Tok::Punct('+', _) => {}
            other => panic!("cannot evaluate {:?}", other),
        }
        i += 1;
    }
    s
}

/// Evaluates integer literals, names from `env`, `+`, and parentheses.
fn eval_int(t: &[Tok], env: &[(&str, i64)]) -> i64 {
    let mut total = 0;
    let mut i = 0;
    while i < t.len() {
        match &t[i] {
            Tok::Lit(l) => total += l.parse::<i64>().expect("an integer"),
            Tok::Ident(n) => total += env.iter().find(|(k, _)| k == n).expect("a known name").1,
            Tok::Open(_) => {
                let end = tree_end(t, i);
                total += eval_int(&t[i + 1..end - 1], env);
                i = end - 1;
            }
            Tok::Punct('+', _) => {}
            other => panic!("cannot evaluate {:?}", other),
        }
        i += 1;
    }
    total
}

const DUALBINDING: &str = "macro_rules! macro1 {
    (a) => { CaseA };
    (b) => { CaseB };

    (CaseA) => { MatchedCaseA };

    (stringify_two) =>
    let $x:tt = macro1!(a) in
    let $y:tt = macro1!(b) in
    {
        stringify!($x).to_owned() + stringify!($y)
    };

    (stringify_sequential) =>
    let $x:tt = macro1!(a) in
    let $y:tt = macro1!($x) in
    {
        stringify!($y)
    };
}";

#[test]
fn dualbinding_tests_stringify_order_single_call() {
    let mut e = Engine::new(&[DUALBINDING]);
    assert_eq!(eval_str(&e.expand("macro1!(stringify_two)").unwrap()), "CaseACaseB");
}

#[test]
fn stringify_order_sequential_call() {
    let mut e = Engine::new(&[DUALBINDING]);
    assert_eq!(eval_str(&e.expand("macro1!(stringify_sequential)").unwrap()), "MatchedCaseA");
}

const DUAL_MACRO1: &str = "macro_rules! macro1 {
    (a) => {
        Case1A
    };
    (b) => {
        Case1B
    };

    (Case1A) => {
        Matched1Case1A
    };
    (Case2A) => {
        Matched1Case2A
    };
}";

const DUAL_MACRO2: &str = "macro_rules! macro2 {
    (a) => { Case2A };
    (b) => { Case2B };

    (Case1A) => { Matched2Case1A };
    (Case2A) => { Matched2Case2A };

    (stringify_1_2) =>
    let $x:tt = macro1!(a) in
    let $y:tt = macro2!(b) in
    {
        stringify!($x).to_owned() + stringify!($y)
    };

    (stringify_2_1) =>
    let $x:tt = macro2!(a) in
    let $y:tt = macro1!(b) in
    {
        stringify!($x).to_owned() + stringify!($y)
    };

    (stringify_sequential_1_2) =>
    let $x:tt = macro1!(a) in
    let $y:tt = macro2!($x) in
    {
        stringify!($y)
    };

    (stringify_sequential_2_1) =>
    let $x:tt = macro2!(a) in
    let $y:tt = macro1!($x) in
    {
        stringify!($y)
    };
}";

#[test]
fn stringify_1_2_call() {
    let mut e = Engine::new(&[DUAL_MACRO1, DUAL_MACRO2]);
    assert_eq!(eval_str(&e.expand("macro2!(stringify_1_2)").unwrap()), "Case1ACase2B");
}

#[test]
fn stringify_2_1_call() {
    let mut e = Engine::new(&[DUAL_MACRO1, DUAL_MACRO2]);
    assert_eq!(eval_str(&e.expand("macro2!(stringify_2_1)").unwrap()), "Case2ACase1B");
}

#[test]
fn stringify_sequential_1_2_call() {
    let mut e = Engine::new(&[DUAL_MACRO1, DUAL_MACRO2]);
    assert_eq!(eval_str(&e.expand("macro2!(stringify_sequential_1_2)").unwrap()), "Matched2Case1A");
}

#[test]
fn stringify_sequential_2_1_call() {
    let mut e = Engine::new(&[DUAL_MACRO1, DUAL_MACRO2]);
    assert_eq!(eval_str(&e.expand("macro2!(stringify_sequential_2_1)").unwrap()), "Matched1Case2A");
}

const INBUILT: &str = "macro_rules! macro1 {
    () => { BaseCase };

    ($expr:expr) => { concat!(\"Got: \", $expr) };

    (@run stringify) =>
    let $x:tt = macro1!() in
    let $y:expr = cps::stringify!($x) in
    let $($z:tt)* = macro1!($y) in
    {
        $($z)*
    };

    (@run concat) =>
    let $x:tt = macro1!() in
    let $a:expr = cps::stringify!($x) in
    let $y:expr = cps::concat!(3, $a, true) in
    let $($z:tt)* = macro1!($y) in
    {
        $($z)*
    };
}";

#[test]
fn stringify_call() {
    let mut e = Engine::new(&[INBUILT]);
    assert_eq!(eval_str(&e.expand("macro1!(@run stringify)").unwrap()), "Got: BaseCase");
}

#[test]
fn concat_call() {
    let mut e = Engine::new(&[INBUILT]);
    assert_eq!(eval_str(&e.expand("macro1!(@run concat)").unwrap()), "Got: 3BaseCasetrue");
}

const MANY_MACRO1: &str = "macro_rules! macro1 {
    (a) => {
        CaseA
    };
    (b) => {
        CaseB
    };
    (CaseA) => {
        MatchedCaseA
    };
}";

const MANY_MACRO2: &str = "macro_rules! macro2 {
    (a_b) =>
    let $x:tt = macro1!(a) in
    let $x2:tt = cps::stringify!($x) in
    let $y:tt = macro1!(b) in
    let $y2:tt = cps::stringify!($y) in
    {
        concat!($x2, $y2)
    };
}";

#[test]
fn stringify_in_order() {
    let mut e = Engine::new(&[MANY_MACRO1, MANY_MACRO2]);
    assert_eq!(eval_str(&e.expand("macro2!(a_b)").unwrap()), "CaseACaseB");
}

const MONO_MACRO1: &str = "macro_rules! macro1 {
    () => { BaseCase };

    (stringify) =>
    let $x:tt = macro1!() in
    {
        stringify!($x)
    };
}";

const MONO_EXPORTED: &str = "#[macro_export]
macro_rules! exported_macro1 {
    () => { BaseCase };

    (stringify) =>
    let $x:tt = crate::exported_macro1!() in
    {
        stringify!($x)
    };
}";

#[test]
fn monobinding_tests_stringify_order_single_call() {
    let mut e = Engine::new(&[MONO_MACRO1, MONO_EXPORTED]);
    assert_eq!(eval_str(&e.expand("macro1!(stringify)").unwrap()), "BaseCase");
}

#[test]
fn stringify_macro_export_call() {
    let mut e = Engine::new(&[MONO_MACRO1, MONO_EXPORTED]);
    assert_eq!(eval_str(&e.expand("macro1!(stringify)").unwrap()), "BaseCase");
}

const MORPH_INPUT1: &str = "macro_rules! input_macro1 {
    () => {
        BaseCase1
    };

    (next) => {
        input_macro2
    };
}";

const MORPH_INPUT2: &str = "macro_rules! input_macro2 {
    () => {
        BaseCase2
    };
}";

const MORPH_MACRO1: &str = "macro_rules! macro1 {
    ($cont:ident) =>
    let $x:tt = $cont!() in
    {
        stringify!($x)
    };

    (do two $cont1:ident) =>
    let $cont2:ident = $cont1!(next) in
    let $x:tt = $cont2!() in
    {
        stringify!($x)
    };
}";

#[test]
fn stringify_order_single_call1() {
    let mut e = Engine::new(&[MORPH_INPUT1, MORPH_INPUT2, MORPH_MACRO1]);
    assert_eq!(eval_str(&e.expand("macro1!(input_macro1)").unwrap()), "BaseCase1");
}

#[test]
fn stringify_order_single_call2() {
    let mut e = Engine::new(&[MORPH_INPUT1, MORPH_INPUT2, MORPH_MACRO1]);
    assert_eq!(eval_str(&e.expand("macro1!(input_macro2)").unwrap()), "BaseCase2");
}

#[test]
fn stringify_order_progress_through() {
    let mut e = Engine::new(&[MORPH_INPUT1, MORPH_INPUT2, MORPH_MACRO1]);
    assert_eq!(eval_str(&e.expand("macro1!(do two input_macro1)").unwrap()), "BaseCase2");
}

const MUTUAL_MACRO1: &str = "macro_rules! macro1 {
    ($callback:ident) =>
    let $($v1:tt)* = $callback!(call1) in
    let $($v2:tt)* = $callback!(call2) in
    {
        concat!($($v1)*, $($v2)*)
    }
}";

const MUTUAL_MACRO2: &str = "macro_rules! macro2 {
    (call1) => { \"A\" };
    (call2) => { \"B\" };

    () =>
    let $($v1:tt)* = macro1!(macro2) in
    let $($v2:tt)* = macro1!(macro2) in
    {
        concat!($($v1)*, $($v2)*)
    }
}";

#[test]
fn mutual_recursion_tests_stringify_order_single_call() {
    let mut e = Engine::new(&[MUTUAL_MACRO1, MUTUAL_MACRO2]);
    assert_eq!(eval_str(&e.expand("macro2!()").unwrap()), "ABAB");
}

const UNBOUND: &str = "macro_rules! macro1 {
    (a) => {
        \"Case1\"
    };
    (a,) => {
        \"Case2\"
    };
    (a $(,)*) => {
        \"Case3\"
    };
    (b) =>
    {
        \"Case4\"
    };
    (b,) =>
    {
        \"Case5\"
    };
    (b $(,)*) =>
    let $v:tt = macro1!(a) in
    {
        concat!($v, \"Case6\")
    };
}";

#[test]
fn case_1() {
    let mut e = Engine::new(&[UNBOUND]);
    assert_eq!(eval_str(&e.expand("macro1!(a)").unwrap()), "Case1");
}

#[test]
fn case_2() {
    let mut e = Engine::new(&[UNBOUND]);
    assert_eq!(eval_str(&e.expand("macro1!(a,)").unwrap()), "Case2");
}

#[test]
fn case_3() {
    let mut e = Engine::new(&[UNBOUND]);
    assert_eq!(eval_str(&e.expand("macro1!(a,,)").unwrap()), "Case3");
}

#[test]
fn case_4() {
    let mut e = Engine::new(&[UNBOUND]);
    assert_eq!(eval_str(&e.expand("macro1!(b,,)").unwrap()), "Case1Case6");
}

const UNMODIFIED: &str = "macro_rules! macro1 {
    () => { \"Empty Call\" };

    (a) => { 1 };

    (12.5) => { 2 };

    (TestParens) => { ( 5 + 10) };

    (@ident $i:ident) => { $i };
}";

#[test]
fn empty_preserved() {
    let mut e = Engine::new(&[UNMODIFIED]);
    assert_eq!(eval_str(&e.expand("macro1!()").unwrap()), "Empty Call");
}

#[test]
fn ident_preserved() {
    let mut e = Engine::new(&[UNMODIFIED]);
    assert_eq!(eval_int(&e.expand("macro1!(a)").unwrap(), &[]), 1);
}

#[test]
fn literal_preserved() {
    let mut e = Engine::new(&[UNMODIFIED]);
    assert_eq!(eval_int(&e.expand("macro1!(12.5)").unwrap(), &[]), 2);
}

#[test]
fn parens_returned() {
    let mut e = Engine::new(&[UNMODIFIED]);
    assert_eq!(eval_int(&e.expand("macro1!(TestParens)").unwrap(), &[]) * 2, 30);
}

#[test]
fn ident_returned() {
    let my_var = -17;
    let mut e = Engine::new(&[UNMODIFIED]);
    assert_eq!(eval_int(&e.expand("macro1!(@ident my_var)").unwrap(), &[("my_var", my_var)]), my_var);
}

#[test]
fn dependency_free_rule_yields_its_body() {
    let mut e = Engine::new(&["macro_rules! m { (a) => { 1 }; (b $x:tt) => { [$x] } }"]);
    assert_eq!(e.expand("m!(a)").unwrap(), lex("1"));
    assert_eq!(e.expand("m!(b (q r))").unwrap(), lex("[(q r)]"));
}

#[test]
fn bindings_evaluate_in_declaration_order() {
    let id = "macro_rules! id { (a) => { \"a\" }; (b) => { \"b\" } }";
    let first = "macro_rules! m { () => let $x:tt = id!(a) in let $y:tt = id!(b) in { concat!($x, $y) } }";
    let swapped = "macro_rules! m { () => let $x:tt = id!(a) in let $y:tt = id!(b) in { concat!($y, $x) } }";
    let mut e = Engine::new(&[id, first]);
    assert_eq!(eval_str(&e.expand("m!()").unwrap()), "ab");
    let mut e2 = Engine::new(&[id, swapped]);
    assert_eq!(eval_str(&e2.expand("m!()").unwrap()), "ba");
    let calls: Vec<&String> = e2.trace.iter().filter(|c| c.starts_with("id ")).collect();
    assert_eq!(calls.len(), 2);
    assert!(calls[0].contains("({a} , {a})"));
    assert!(calls[1].contains("({b} , {b})"));
}

#[test]
fn indirect_binding_dispatches_to_resolved_name() {
    let mut e = Engine::new(&[MORPH_INPUT1, MORPH_INPUT2, MORPH_MACRO1]);
    assert_eq!(eval_str(&e.expand("macro1!(do two input_macro1)").unwrap()), "BaseCase2");
    assert!(e.trace.iter().any(|c| c.starts_with("input_macro2 ")));
}

fn chain(n: usize) -> String {
    let mut s = String::from("macro_rules! m { (go) => ");
    for i in 0..n {
        s += &format!("let $x{}:tt = unit!() in ", i);
    }
    s += "{ done } }";
    s
}

#[test]
fn expansion_turns_grow_linearly() {
    for n in [1usize, 5, 20] {
        let src = chain(n);
        let mut e = Engine::new(&["macro_rules! unit { () => { u } }", src.as_str()]);
        assert_eq!(e.expand("m!(go)").unwrap(), lex("done"));
        assert_eq!(e.turns, 2 * n + 2);
    }
}

#[test]
fn reproduction_regenerates_matched_input() {
    let pattern = cps::pattern::parse_matcher(&Tokens { toks: lex("a $x:tt [b $y:ident] , $z:tt") }).unwrap();
    let input = lex("a (1 2) [b q] , w");
    let mut env = Env::new();
    assert!(match_all(&pattern.matches, &input, &mut env));
    let mut repro = Tokens { toks: Vec::new() };
    pattern.build_output_clone(&mut repro);
    assert_eq!(text(&repro.toks), "a $ x [b $ y] , $ z");
    assert_eq!(transcribe(&repro.toks, &env), input);
}

#[test]
fn mismatch_diagnostic_lists_every_expected_shape() {
    let f = "macro_rules! f { () => { 1 } }";
    let m = "macro_rules! m {
        (go) => let $x:ident = f!() in let $w:tt = f!() in { $x };
        (go) => let ($y:tt) = f!() in let $w:tt = f!() in { $y }
    }";
    let mut e = Engine::new(&[f, m]);
    let err = e.expand("m!(go)").unwrap_err();
    assert!(err.contains("while evaluating macro m"));
    assert!(err.contains("`$ x : ident`"));
    assert!(err.contains("`($ y : tt)`"));
    assert!(err.contains("but got `1` instead"));
}

#[test]
fn single_expected_shape_diagnostic() {
    let f = "macro_rules! f { () => { 1 } }";
    let m = "macro_rules! m { (go) => let $x:ident = f!() in let $w:tt = f!() in { $x } }";
    let mut e = Engine::new(&[f, m]);
    let err = e.expand("m!(go)").unwrap_err();
    assert_eq!(err, "while evaluating macro m, expected something that matches `$ x : ident` but got `1` instead");
}

#[test]
fn unknown_input_reports_no_matching_rule() {
    let mut e = Engine::new(&["macro_rules! m { (a) => { 1 } }"]);
    let err = e.expand("m!(b)").unwrap_err();
    assert_eq!(err, "cannot match `b`");
}

#[test]
fn invalid_protocol_state_is_reported_as_a_defect() {
    let mut e = Engine::new(&["macro_rules! m { (a) => { 1 } }"]);
    let err = e.expand("m!(@_cps nonsense)").unwrap_err();
    assert!(err.starts_with("cps macro evaluation resulted in an invalid state: `nonsense`"));
    assert!(err.contains("bug"));
    let err2 = e.expand("m!(@_cps |:| |:| |)").unwrap_err();
    assert!(err2.starts_with("base case has no result"));
}

#[test]
fn repeated_expected_shape_is_listed_once() {
    let f = "macro_rules! f { () => { 1 } }";
    let m = "macro_rules! m {
        (go) => let $x:ident = f!() in let $w:tt = f!() in { $x };
        (go) => let $x:ident = f!() in let $v:tt = f!() in { $v }
    }";
    let mut e = Engine::new(&[f, m]);
    let err = e.expand("m!(go)").unwrap_err();
    assert_eq!(err, "while evaluating macro m, expected something that matches `$ x : ident` but got `1` instead");
}
