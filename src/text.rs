use vstd::prelude::*;
use vstd::string::StrSliceExecFns;
use crate::tokens::{Delim, Tok, TokV, Tokens};

verus! {

/// The text of one token.
pub open spec fn tok_text(t: TokV) -> Seq<char> {
    match t {
        TokV::Ident(s) => s,
        TokV::Punct(c, _) => seq![c],
        TokV::Lit(s) => s,
        TokV::Open(Delim::Paren) => seq!['('],
        TokV::Open(Delim::Brace) => seq!['{'],
        TokV::Open(Delim::Bracket) => seq!['['],
        TokV::Open(Delim::Invisible) => seq![],
        TokV::Close(Delim::Paren) => seq![')'],
        TokV::Close(Delim::Brace) => seq!['}'],
        TokV::Close(Delim::Bracket) => seq![']'],
        TokV::Close(Delim::Invisible) => seq![],
    }
}

/// What stands between two neighbouring tokens in text: nothing after a
/// joined punctuation character or an opening delimiter, or before a closing
/// delimiter; a space otherwise.
pub open spec fn gap(a: TokV, b: TokV) -> Seq<char> {
    if (a is Punct && a->Punct_1) || a is Open || b is Close {
        seq![]
    } else {
        seq![' ']
    }
}

/// The text of a token sequence.
pub open spec fn text_of(s: Seq<TokV>) -> Seq<char>
    decreases s.len(),
{
    if s.len() == 0 {
        seq![]
    } else if s.len() == 1 {
        tok_text(s[0])
    } else {
        text_of(s.drop_last()) + gap(s[s.len() - 2], s.last()) + tok_text(s.last())
    }
}

/// Appends the characters of `s`.
pub fn push_str(v: &mut Vec<char>, s: &str)
    ensures
        final(v)@ == old(v)@ + s@,
{
    let ghost o = v@;
    let n = s.unicode_len();
    let mut i: usize = 0;
    while i < n
        invariant
            i <= n == s@.len(),
            v@ == o + s@.subrange(0, i as int),
        decreases n - i,
    {
        v.push(s.get_char(i));
        assert(s@.subrange(0, i + 1) =~= s@.subrange(0, i as int).push(s@[i as int]));
        i = i + 1;
    }
    assert(s@.subrange(0, n as int) =~= s@);
}

pub fn push_chars(v: &mut Vec<char>, s: &Vec<char>)
    ensures
        final(v)@ == old(v)@ + s@,
{
    let ghost o = v@;
    let mut i: usize = 0;
    while i < s.len()
        invariant
            i <= s@.len(),
            v@ == o + s@.subrange(0, i as int),
        decreases s@.len() - i,
    {
        v.push(s[i]);
        assert(s@.subrange(0, i + 1) =~= s@.subrange(0, i as int).push(s@[i as int]));
        i = i + 1;
    }
    assert(s@.subrange(0, s@.len() as int) =~= s@);
}

fn push_tok_text(v: &mut Vec<char>, t: &Tok)
    ensures
        final(v)@ == old(v)@ + tok_text(t@),
{
    let ghost o = v@;
    match t {
        Tok::Ident(s) => push_str(v, s.as_str()),
        Tok::Punct(c, _) => v.push(*c),
        Tok::Lit(s) => push_str(v, s.as_str()),
        Tok::Open(Delim::Paren) => v.push('('),
        Tok::Open(Delim::Brace) => v.push('{'),
        Tok::Open(Delim::Bracket) => v.push('['),
        Tok::Open(Delim::Invisible) => {},
        Tok::Close(Delim::Paren) => v.push(')'),
        Tok::Close(Delim::Brace) => v.push('}'),
        Tok::Close(Delim::Bracket) => v.push(']'),
        Tok::Close(Delim::Invisible) => {},
    }
    assert(v@ =~= o + tok_text(t@));
}

fn needs_gap(a: &Tok, b: &Tok) -> (r: bool)
    ensures
        r == (gap(a@, b@) == seq![' ']),
{
    let r = match (a, b) {
        (Tok::Punct(_, true), _) => false,
        (Tok::Open(_), _) => false,
        (_, Tok::Close(_)) => false,
        _ => true,
    };
    assert(seq![' '] != Seq::<char>::empty()) by {
        assert(seq![' '].len() == 1);
    }
    r
}

/// The text of a token sequence as the diagnostics write it (the library's own layout).
pub fn tokens_text(t: &Tokens) -> (r: Vec<char>)
    ensures
        r@ == text_of(t@),
{
    let mut v: Vec<char> = Vec::new();
    let n = t.len();
    if n == 0 {
        return v;
    }
    push_tok_text(&mut v, t.get(0));
    assert(v@ =~= text_of(t@.subrange(0, 1)));
    let mut i: usize = 1;
    while i < n
        invariant
            1 <= i <= n == t@.len(),
            v@ == text_of(t@.subrange(0, i as int)),
        decreases n - i,
    {
        let ghost s = t@.subrange(0, i + 1);
        assert(s.drop_last() =~= t@.subrange(0, i as int));
        if needs_gap(t.get(i - 1), t.get(i)) {
            v.push(' ');
        }
        push_tok_text(&mut v, t.get(i));
        assert(v@ =~= text_of(s));
        i = i + 1;
    }
    assert(t@.subrange(0, n as int) =~= t@);
    v
}

/// How a character is written inside a string literal: `"` and `\` behind
/// a backslash, a carriage return as `\r`, any other character as itself.
pub open spec fn escape_char(c: char) -> Seq<char> {
    if c == '"' || c == '\\' {
        seq!['\\', c]
    } else if c == '\r' {
        seq!['\\', 'r']
    } else {
        seq![c]
    }
}

pub open spec fn escaped(s: Seq<char>) -> Seq<char>
    decreases s.len(),
{
    if s.len() == 0 {
        seq![]
    } else {
        escaped(s.drop_last()) + escape_char(s.last())
    }
}

/// The source text of a string literal whose value is `s`.
pub open spec fn string_literal_text(s: Seq<char>) -> Seq<char> {
    seq!['"'] + escaped(s) + seq!['"']
}

/// Relies on `String`'s `FromIterator<char>`: the string holds the characters in order.
#[verifier::external_body]
fn chars_to_string(v: &Vec<char>) -> (r: String)
    ensures
        r@ == v@,
{
    v.iter().collect()
}

/// The source text of a string literal whose value is `text`.
pub fn string_literal(text: &Vec<char>) -> (r: Vec<char>)
    ensures
        r@ == string_literal_text(text@),
{
    let mut v: Vec<char> = Vec::new();
    v.push('"');
    let mut i: usize = 0;
    while i < text.len()
        invariant
            i <= text@.len(),
            v@ == seq!['"'] + escaped(text@.subrange(0, i as int)),
        decreases text@.len() - i,
    {
        let c = text[i];
        if c == '"' || c == '\\' {
            v.push('\\');
            v.push(c);
        } else if c == '\r' {
            v.push('\\');
            v.push('r');
        } else {
            v.push(c);
        }
        assert(text@.subrange(0, i + 1).drop_last() =~= text@.subrange(0, i as int));
        assert(v@ =~= seq!['"'] + escaped(text@.subrange(0, i + 1)));
        i = i + 1;
    }
    v.push('"');
    assert(text@.subrange(0, text@.len() as int) =~= text@);
    assert(v@ =~= string_literal_text(text@));
    v
}

/// A string literal token whose value is `text`.
pub fn string_lit_tok(text: &Vec<char>) -> (r: Tok)
    ensures
        r@ == TokV::Lit(string_literal_text(text@)),
{
    Tok::Lit(chars_to_string(&string_literal(text)))
}

} // verus!
