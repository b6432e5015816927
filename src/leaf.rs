use vstd::prelude::*;
use litrs::Literal as L;
use crate::error::CpsError;
use crate::protocol::{after_step, argument_of, decode, decode_spec, finish_step, take_argument, CPSProcMacro};
use vstd::string::StrSliceExecFns;
use crate::text::{push_chars, push_str, string_lit_tok, string_literal_text};
use crate::tokens::{is_punct, Tok, TokV, Tokens};

verus! {

/// How litrs reads a literal: a string literal as its value, a character
/// literal as its character, any other literal as its text as written.
pub enum LitReadingV {
    Str(Seq<char>),
    Char(char),
    Other(Seq<char>),
}

/// A literal as litrs reads it.
pub enum LitReading {
    Str(String),
    Char(char),
    Other(String),
}

impl View for LitReading {
    type V = LitReadingV;

    open spec fn view(&self) -> LitReadingV {
        match self {
            LitReading::Str(v) => LitReadingV::Str(v@),
            LitReading::Char(c) => LitReadingV::Char(*c),
            LitReading::Other(v) => LitReadingV::Other(v@),
        }
    }
}

/// How litrs reads the literal written as `text`; nothing for text that is no literal.
pub uninterp spec fn literal_reading(text: Seq<char>) -> Option<LitReadingV>;

/// The text is empty or ends in an ASCII character: litrs's scanner slices
/// off the last byte of a string literal's text, which must then be a whole
/// character.
pub open spec fn ends_ascii(text: Seq<char>) -> bool {
    text.len() == 0 || (text.last() as u32) < 128
}

/// `"s"` where `s` holds no `"`, backslash or carriage return: a string literal without escapes.
pub open spec fn plain_string_literal(text: Seq<char>, s: Seq<char>) -> bool {
    &&& text == seq!['"'] + s + seq!['"']
    &&& forall|k: int| 0 <= k < s.len() ==> #[trigger] s[k] != '"' && s[k] != '\\' && s[k] != '\r'
}

/// Decimal digits alone: an integer literal without suffix.
pub open spec fn decimal_digits(text: Seq<char>) -> bool {
    text.len() > 0 && forall|k: int| 0 <= k < text.len() ==> '0' <= #[trigger] text[k] <= '9'
}

/// Relies on `litrs::Literal::parse`, with `StringLit::value`, `CharLit::value`
/// and the other kinds' `Display` (their text as written): a string literal
/// without escapes has the text between its quotes as value, and decimal
/// digits read as an integer written as themselves.
#[verifier::external_body]
fn read_literal(text: &str) -> (r: Option<LitReading>)
    requires
        ends_ascii(text@),
    ensures
        match r {
            Some(l) => literal_reading(text@) == Some(l@),
            None => literal_reading(text@) == None::<LitReadingV>,
        },
        forall|s: Seq<char>|
            #[trigger] plain_string_literal(text@, s) ==> (r is Some && r->Some_0@ == LitReadingV::Str(s)),
        decimal_digits(text@) ==> (r is Some && r->Some_0@ == LitReadingV::Other(text@)),
{
    match L::parse(text) {
        Ok(L::String(s)) => Some(LitReading::Str(s.value().to_string())),
        Ok(L::Char(c)) => Some(LitReading::Char(c.value())),
        Ok(L::Bool(l)) => Some(LitReading::Other(l.to_string())),
        Ok(L::Integer(l)) => Some(LitReading::Other(l.to_string())),
        Ok(L::Float(l)) => Some(LitReading::Other(l.to_string())),
        Ok(L::Byte(l)) => Some(LitReading::Other(l.to_string())),
        Ok(L::ByteString(l)) => Some(LitReading::Other(l.to_string())),
        Err(_) => None,
    }
}

/// What a literal contributes to `concat`: a string's value, a character,
/// or the text of any other literal.
pub open spec fn reading_value(l: LitReadingV) -> Seq<char> {
    match l {
        LitReadingV::Str(v) => v,
        LitReadingV::Char(c) => seq![c],
        LitReadingV::Other(raw) => raw,
    }
}

/// What one argument of `concat` contributes: `true` and `false`, or a literal's value.
pub open spec fn arg_value(t: TokV) -> Option<Seq<char>> {
    match t {
        TokV::Ident(s) => if s == "true"@ || s == "false"@ {
            Some(s)
        } else {
            None
        },
        TokV::Lit(s) => if ends_ascii(s) {
            match literal_reading(s) {
                Some(l) => Some(reading_value(l)),
                None => None,
            }
        } else {
            None
        },
        _ => None,
    }
}

/// The concatenated values of the comma separated arguments `s[i..]`
/// (a trailing comma allowed), after `acc`; nothing if an argument has no value
/// or two are not separated by a comma.
pub open spec fn concat_from(s: Seq<TokV>, i: int, acc: Seq<char>) -> Option<Seq<char>>
    decreases s.len() - i,
{
    if i < 0 || i >= s.len() {
        Some(acc)
    } else {
        match arg_value(s[i]) {
            None => None,
            Some(v) => if i + 1 >= s.len() {
                Some(acc + v)
            } else if is_punct(s[i + 1], ',') {
                concat_from(s, i + 2, acc + v)
            } else {
                None
            },
        }
    }
}

fn arg_value_exec(t: &Tok) -> (r: Option<Vec<char>>)
    ensures
        match r {
            Some(v) => arg_value(t@) == Some(v@),
            None => arg_value(t@) == None::<Seq<char>>,
        },
{
    match t {
        Tok::Ident(s) => {
            if t.is_ident_str("true") || t.is_ident_str("false") {
                let mut v: Vec<char> = Vec::new();
                push_str(&mut v, s.as_str());
                assert(v@ =~= s@);
                Some(v)
            } else {
                None
            }
        },
        Tok::Lit(s) => {
            let n = s.as_str().unicode_len();
            if n > 0 && (s.as_str().get_char(n - 1) as u32) >= 128 {
                None
            } else {
                match read_literal(s.as_str()) {
                    Some(LitReading::Str(v)) => {
                        let mut w: Vec<char> = Vec::new();
                        push_str(&mut w, v.as_str());
                        assert(w@ =~= v@);
                        Some(w)
                    },
                    Some(LitReading::Char(c)) => {
                        let mut v: Vec<char> = Vec::new();
                        v.push(c);
                        assert(v@ =~= seq![c]);
                        Some(v)
                    },
                    Some(LitReading::Other(raw)) => {
                        let mut w: Vec<char> = Vec::new();
                        push_str(&mut w, raw.as_str());
                        assert(w@ =~= raw@);
                        Some(w)
                    },
                    None => None,
                }
            }
        },
        _ => None,
    }
}

/// The leaf computation of `concat`: one string literal holding the values of
/// the arguments one after the other.
pub fn concat_step(input: &Tokens) -> (r: Result<Tokens, CpsError>)
    ensures
        match r {
            Ok(o) => concat_from(input@, 0, seq![]) is Some && o@ == seq![
                TokV::Lit(string_literal_text(concat_from(input@, 0, seq![])->0)),
            ],
            Err(e) => concat_from(input@, 0, seq![]) is None && e == CpsError::BadLeafInput,
        },
{
    let n = input.len();
    let mut acc: Vec<char> = Vec::new();
    let mut i: usize = 0;
    while i < n
        invariant
            i <= n == input@.len(),
            concat_from(input@, 0, seq![]) == concat_from(input@, i as int, acc@),
        decreases n - i,
    {
        let v = match arg_value_exec(input.get(i)) {
            Some(v) => v,
            None => {
                return Err(CpsError::BadLeafInput);
            },
        };
        push_chars(&mut acc, &v);
        if i + 1 >= n {
            i = n;
        } else if input.get(i + 1).is_punct_char(',') {
            i = i + 2;
        } else {
            return Err(CpsError::BadLeafInput);
        }
    }
    let mut out = Tokens::new();
    out.push(string_lit_tok(&acc));
    Ok(out)
}

/// `concat` as a leaf computation of the protocol.
pub struct Concat;

impl CPSProcMacro for Concat {
    open spec fn step_spec(input: Seq<TokV>) -> Result<Seq<TokV>, CpsError> {
        concat_spec(input)
    }

    fn step(input: &Tokens) -> (r: Result<Tokens, CpsError>) {
        concat_step(input)
    }
}

/// What a leaf computation makes of the protocol invocation `t` when it
/// computes `step` from its argument: the invocation that follows, or the
/// error.
pub open spec fn leaf_result(t: Seq<TokV>, step: spec_fn(Seq<TokV>) -> Result<Seq<TokV>, CpsError>) -> Result<
    Seq<TokV>,
    CpsError,
> {
    match decode_spec(t) {
        Err(e) => Err(e),
        Ok(v) => match argument_of(v) {
            None => Err(CpsError::ArgumentCount),
            Some(a) => match step(a) {
                Err(e) => Err(e),
                Ok(res) => match after_step(v, res) {
                    None => Err(CpsError::StackNotEmpty),
                    Some(o) => Ok(o),
                },
            },
        },
    }
}

/// The result of `concat` on its argument.
pub open spec fn concat_spec(a: Seq<TokV>) -> Result<Seq<TokV>, CpsError> {
    match concat_from(a, 0, seq![]) {
        None => Err(CpsError::BadLeafInput),
        Some(v) => Ok(seq![TokV::Lit(string_literal_text(v))]),
    }
}

/// Concatenates literals, usable on the right of a sequential binding: the
/// protocol invocation `item` carries the arguments, and the result is handed
/// to the waiting continuation.
pub fn concat(item: &Tokens) -> (r: Result<Tokens, CpsError>)
    ensures
        match r {
            Ok(o) => leaf_result(item@, |a: Seq<TokV>| concat_spec(a)) == Ok::<Seq<TokV>, CpsError>(o@),
            Err(e) => leaf_result(item@, |a: Seq<TokV>| concat_spec(a)) == Err::<Seq<TokV>, CpsError>(e),
        },
{
    let v = decode(item)?;
    let arg = take_argument(&v)?;
    let res = concat_step(&arg)?;
    finish_step(&v, &res)
}

} // verus!
