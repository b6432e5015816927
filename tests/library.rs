use cps::error::CpsError;
use cps::item::{impl_cps, parse_item};
use cps::leaf::concat_step;
use cps::pattern::{begins_with_cps_marker, parse_matcher, MacroMatch};
use cps::protocol::{decode, finish_step, take_argument};
use cps::rule::parse_rules;
use cps::text::tokens_text;
use cps::tokens::{Delim, Tok, Tokens};

fn lex(src: &str) -> Tokens {
    let ts: proc_macro2::TokenStream = src.parse().expect("lexable source");
    let mut out = Vec::new();
    flatten(ts, &mut out);
    Tokens { toks: out }
}

fn flatten(ts: proc_macro2::TokenStream, out: &mut Vec<Tok>) {
    for tt in ts {
        match tt {
            proc_macro2::TokenTree::Ident(i) => out.push(Tok::Ident(i.to_string())),
            proc_macro2::TokenTree::Punct(p) => {
                out.push(Tok::Punct(p.as_char(), p.spacing() == proc_macro2::Spacing::Joint))
            }
            proc_macro2::TokenTree::Literal(l) => out.push(Tok::Lit(l.to_string())),
            proc_macro2::TokenTree::Group(g) => {
                let d = match g.delimiter() {
                    proc_macro2::Delimiter::Parenthesis => Delim::Paren,
                    proc_macro2::Delimiter::Brace => Delim::Brace,
                    _ => Delim::Bracket,
                };
                out.push(Tok::Open(d));
                flatten(g.stream(), out);
                out.push(Tok::Close(d));
            }
        }
    }
}

fn text(t: &Tokens) -> String {
    tokens_text(t).into_iter().collect()
}

#[test]
fn matcher_parse_round_trips() {
    let src = lex("a $x:tt ( $( $y:ident ),+ ) [ $($z:tt)* ] $(;)?");
    let m = parse_matcher(&src).unwrap();
    let mut back = Tokens { toks: Vec::new() };
    m.to_tokens(&mut back);
    assert_eq!(back.toks, src.toks);
    assert_eq!(m.matches.len(), 15);
}

#[test]
fn matcher_errors() {
    assert_eq!(parse_matcher(&Tokens { toks: vec![Tok::Open(Delim::Paren)] }).unwrap_err(), CpsError::Unbalanced);
    assert_eq!(parse_matcher(&Tokens { toks: vec![Tok::Close(Delim::Brace)] }).unwrap_err(), CpsError::Unbalanced);
    assert_eq!(parse_matcher(&lex("$x")).unwrap_err(), CpsError::MissingFragmentKind);
    assert_eq!(parse_matcher(&lex("$x:")).unwrap_err(), CpsError::MissingFragmentKind);
    assert_eq!(parse_matcher(&lex("$(a)")).unwrap_err(), CpsError::MissingRepetitionOperator);
    assert_eq!(parse_matcher(&lex("$(a),")).unwrap_err(), CpsError::MissingRepetitionOperator);
    assert!(parse_matcher(&lex("")).unwrap().matches.is_empty());
}

#[test]
fn reserved_marker_is_refused() {
    let m = parse_matcher(&lex("@_cps x")).unwrap();
    assert!(begins_with_cps_marker(&m));
    assert!(!begins_with_cps_marker(&parse_matcher(&lex("@ other")).unwrap()));
    assert_eq!(parse_rules(&lex("(@_cps x) => { 1 }")).unwrap_err(), CpsError::ReservedMarker);
    assert_eq!(impl_cps(&lex("macro_rules! m { (@_cps) => { 1 }; }")).unwrap_err(), CpsError::ReservedMarker);
}

#[test]
fn rule_syntax_errors() {
    assert_eq!(parse_rules(&lex("a => { 1 }")).unwrap_err(), CpsError::ExpectedGroup);
    assert_eq!(parse_rules(&lex("(a) { 1 }")).unwrap_err(), CpsError::ExpectedFatArrow);
    assert_eq!(parse_rules(&lex("(a) => { 1 } (b) => { 2 }")).unwrap_err(), CpsError::ExpectedSemicolon);
    assert_eq!(parse_rules(&lex("(a) => let $x:tt = m!() { 1 }")).unwrap_err(), CpsError::MalformedLet);
    assert_eq!(parse_rules(&lex("(a) => let = m!() in { 1 }")).unwrap_err(), CpsError::MalformedLet);
    assert_eq!(parse_rules(&lex("(a) => let $x:tt = !() in { 1 }")).unwrap_err(), CpsError::MalformedLet);
    assert_eq!(parse_rules(&lex("(a) => let $x:tt = m!() in")).unwrap_err(), CpsError::ExpectedGroup);
}

#[test]
fn rules_with_bindings_parse() {
    let (rules, trailing) = parse_rules(&lex("(a $c:ident) => let $x:tt = m!(a) in let $y:tt = $c!($x) in { $y };")).unwrap();
    assert!(trailing);
    assert_eq!(rules.len(), 1);
    let r = &rules[0];
    assert_eq!(r.let_bindings.len(), 2);
    assert!(!r.let_bindings[0].macro_name_indirection);
    assert!(r.let_bindings[1].macro_name_indirection);
    assert_eq!(text(&r.let_bindings[0].macro_path), "m");
    assert_eq!(text(&r.let_bindings[1].macro_path), "c");
    assert_eq!(text(&r.let_bindings[1].macro_args), "$ x");
    assert_eq!(text(&r.impl_tokens), "$ y");
    let (paths, _) = parse_rules(&lex("() => let $x:tt = cps::stringify!(a) in { $x }")).unwrap();
    assert_eq!(paths[0].let_bindings[0].macro_path.toks.len(), 4);
}

#[test]
fn item_errors() {
    assert_eq!(impl_cps(&lex("fn f() {}")).unwrap_err(), CpsError::NotMacroRules);
    assert_eq!(impl_cps(&lex("macro_rules! { }")).unwrap_err(), CpsError::NotMacroRules);
    assert_eq!(impl_cps(&lex("# x macro_rules! m { }")).unwrap_err(), CpsError::NotMacroRules);
}

#[test]
fn compiled_rule_count_and_entry() {
    let item = parse_item(&lex("#[macro_export] macro_rules! m { (a) => let $x:tt = m!(b) in let $y:tt = m!(c) in { $x $y }; (b) => { 1 }; (c) => { 2 }; }")).unwrap();
    assert_eq!(text(&item.attrs), "# [macro_export]");
    let rules = cps::ruleset::compile_rules(&item.name, &item.rules);
    // 4 + 2 + 2 protocol rules, 2 diagnostic dispatch points, 3 fallbacks, 1 entry
    assert_eq!(rules.len(), 8 + 2 + 3 + 1);
    let entry = rules.last().unwrap();
    assert_eq!(text(&entry.body), "m ! {@ _cps | : | | : | ({$ ($ input) *} , {$ ($ input) *}) |}");
    let out = impl_cps(&lex("macro_rules! m { (a) => { 1 } }")).unwrap();
    assert!(text(&out).starts_with("macro_rules ! m {(@ _cps | : | | : | ({a} , {$ ($ _cps_dud_pattern : tt) *}) |) => {1} ;"));
}

#[test]
fn next_step_layout() {
    let out = cps::compile::build_next_step(&lex("k"), &lex("(a) | (b)"), &lex("x y"), &lex("({q} , {q}) |"));
    assert_eq!(text(&out), "k ! {@ _cps | : | (a) | (b) | : | ({x y} , {x y}) ({q} , {q}) |}");
}

#[test]
fn decode_reads_program_and_stack() {
    let v = decode(&lex("@_cps |:| (a) | (b) |:| ({x} , {x}) | ({p q} , {p q}) ({r} , {r}) |")).unwrap();
    assert_eq!(v.program, vec!["a".to_string(), "b".to_string()]);
    assert_eq!(v.stack.len(), 2);
    assert_eq!(v.stack[1].len(), 2);
    assert_eq!(text(&v.stack[1][0].lhs), "p q");
    let arg = take_argument(&v).unwrap();
    assert_eq!(text(&arg), "x");
    let next = finish_step(&v, &lex("res")).unwrap();
    assert_eq!(text(&next), "a ! {@ _cps | : | (b) | : | ({res} , {res}) ({p q} , {p q}) ({r} , {r}) |}");
}

#[test]
fn decode_errors() {
    assert_eq!(decode(&lex("@_other |:| |:|")).unwrap_err(), CpsError::WrongMarker);
    assert_eq!(decode(&lex("@_cps |:| a |:|")).unwrap_err(), CpsError::MalformedProtocol);
    assert_eq!(decode(&lex("@_cps |:| |:| ({x} , {x})")).unwrap_err(), CpsError::MalformedProtocol);
    assert_eq!(decode(&lex("x")).unwrap_err(), CpsError::MalformedProtocol);
    let two = decode(&lex("@_cps |:| |:| ({x} , {x}) ({y} , {y}) |")).unwrap();
    assert_eq!(take_argument(&two).unwrap_err(), CpsError::ArgumentCount);
    let rest = decode(&lex("@_cps |:| |:| ({x} , {x}) | ({y} , {y}) |")).unwrap();
    assert_eq!(finish_step(&rest, &lex("r")).unwrap_err(), CpsError::StackNotEmpty);
    let done = decode(&lex("@_cps |:| |:| ({x} , {x}) |")).unwrap();
    assert_eq!(text(&finish_step(&done, &lex("r")).unwrap()), "r");
}

#[test]
fn string_literal_escapes_quotes_and_backslashes() {
    let lit = cps::text::string_lit_tok(&"a \"q\" \\ b".chars().collect());
    assert_eq!(lit, Tok::Lit("\"a \\\"q\\\" \\\\ b\"".to_string()));
    let plain = cps::text::string_lit_tok(&"CaseA".chars().collect());
    assert_eq!(plain, Tok::Lit("\"CaseA\"".to_string()));
}

#[test]
fn concat_refuses_a_literal_ending_in_a_wide_character() {
    let lit = Tok::Lit("\"\\n\"\u{e9}".to_string());
    assert_eq!(concat_step(&Tokens { toks: vec![lit] }).unwrap_err(), CpsError::BadLeafInput);
    let open = Tok::Lit("\"\\t\u{e9}".to_string());
    assert_eq!(concat_step(&Tokens { toks: vec![open] }).unwrap_err(), CpsError::BadLeafInput);
}

#[test]
fn leaf_concat_joins_literal_values() {
    let out = concat_step(&lex("3, \"Base\", 'c', true,")).unwrap();
    assert_eq!(out.toks, vec![Tok::Lit("\"3Basectrue\"".to_string())]);
    assert_eq!(concat_step(&lex("")).unwrap().toks, vec![Tok::Lit("\"\"".to_string())]);
    assert_eq!(concat_step(&lex("x")).unwrap_err(), CpsError::BadLeafInput);
    assert_eq!(concat_step(&lex("1 2")).unwrap_err(), CpsError::BadLeafInput);
    let via = cps::leaf::concat(&lex("@_cps |:| (k) |:| ({1, 2} , {1, 2}) | ({z} , {z}) |")).unwrap();
    assert_eq!(text(&via), "k ! {@ _cps | : | | : | ({\"12\"} , {\"12\"}) ({z} , {z}) |}");
}

#[test]
fn matcher_reproduction_of_repetition() {
    let m = parse_matcher(&lex("$( $a:tt ),+")).unwrap();
    assert!(matches!(m.matches[0], MacroMatch::RepetitionOpen));
    let mut out = Tokens { toks: Vec::new() };
    m.build_output_clone(&mut out);
    assert_eq!(text(&out), "$ ($ a) ,*");
}

#[test]
fn definition_semicolon_is_kept() {
    let out = impl_cps(&lex("macro_rules! m ( (a) => { 1 } );")).unwrap();
    assert_eq!(out.toks.last(), Some(&Tok::Punct(';', false)));
    let bare = impl_cps(&lex("macro_rules! m { (a) => { 1 } }")).unwrap();
    assert_eq!(bare.toks.last(), Some(&Tok::Close(Delim::Brace)));
}

#[test]
fn let_pattern_is_one_element() {
    assert_eq!(parse_rules(&lex("(a) => let $x:tt $y:tt = m!() in { 1 }")).unwrap_err(), CpsError::MalformedLet);
    assert!(parse_rules(&lex("(a) => let ($x:tt $y:tt) = m!() in { 1 }")).is_ok());
    assert!(parse_rules(&lex("(a) => let $($x:tt)* = m!() in { 1 }")).is_ok());
    assert_eq!(parse_rules(&lex("(a) => let (x) (y) = m!() in { 1 }")).unwrap_err(), CpsError::MalformedLet);
}

#[test]
fn invisible_groups_are_not_rule_groups() {
    let t = Tokens { toks: vec![Tok::Open(Delim::Invisible), Tok::Close(Delim::Invisible)] };
    assert_eq!(cps::rule::group_end(&t, 0).unwrap_err(), CpsError::ExpectedGroup);
    let mut head = vec![Tok::Open(Delim::Invisible), Tok::Ident("a".to_string()), Tok::Close(Delim::Invisible)];
    head.extend(lex("=> { 1 }").toks);
    assert_eq!(parse_rules(&Tokens { toks: head }).unwrap_err(), CpsError::ExpectedGroup);
    let mut body = lex("(a) =>").toks;
    body.extend(vec![Tok::Open(Delim::Invisible), Tok::Ident("b".to_string()), Tok::Close(Delim::Invisible)]);
    assert_eq!(parse_rules(&Tokens { toks: body }).unwrap_err(), CpsError::ExpectedGroup);
}

#[test]
fn perform_macro_reports_protocol_errors() {
    assert_eq!(cps::protocol::perform_macro::<cps::leaf::Concat>(&lex("@_x |:| |:| ({1}, {1}) |")).unwrap_err(), CpsError::WrongMarker);
    assert_eq!(cps::protocol::perform_macro::<cps::leaf::Concat>(&lex("@_cps |:| |:| |")).unwrap_err(), CpsError::ArgumentCount);
    assert_eq!(
        cps::protocol::perform_macro::<cps::leaf::Concat>(&lex("@_cps |:| |:| ({1}, {1}) | ({2}, {2}) |")).unwrap_err(),
        CpsError::StackNotEmpty
    );
    let out = cps::protocol::perform_macro::<cps::leaf::Concat>(&lex("@_cps |:| (k) |:| ({1, \"a\"}, {1, \"a\"}) |")).unwrap();
    assert_eq!(text(&out), "k ! {@ _cps | : | | : | ({\"1a\"} , {\"1a\"})}");
}
