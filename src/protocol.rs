use vstd::prelude::*;
use crate::compile::{build_next_step, divider, head, next_step};
use crate::error::CpsError;
use crate::rule::{group, group_close, parse_brace, parse_paren};
use crate::tokens::{id, is_punct, marker, marker_name, p, Delim, Tok, TokV, Tokens};

verus! {

/// One frame of the data stack, `({ lhs }, { rhs })`: a value and its duplicate.
#[derive(Debug)]
pub struct StackElement {
    pub lhs: Tokens,
    pub rhs: Tokens,
}

/// A decoded protocol invocation: the call stack of continuation names and
/// the data stack, a list of parts each made of frames.
#[derive(Debug)]
pub struct MacroInput {
    pub program: Vec<String>,
    pub stack: Vec<Vec<StackElement>>,
}

pub struct MacroInputV {
    pub program: Seq<Seq<char>>,
    pub stack: Seq<Seq<(Seq<TokV>, Seq<TokV>)>>,
}

pub open spec fn part_view(s: Seq<StackElement>) -> Seq<(Seq<TokV>, Seq<TokV>)> {
    s.map_values(|e: StackElement| (e.lhs@, e.rhs@))
}

impl View for MacroInput {
    type V = MacroInputV;

    open spec fn view(&self) -> MacroInputV {
        MacroInputV {
            program: self.program@.map_values(|s: String| s@),
            stack: self.stack@.map_values(|p: Vec<StackElement>| part_view(p@)),
        }
    }
}

/// `(a) | (b) | ...`
pub open spec fn program_tokens(ns: Seq<Seq<char>>) -> Seq<TokV>
    decreases ns.len(),
{
    if ns.len() == 0 {
        seq![]
    } else if ns.len() == 1 {
        group(Delim::Paren, seq![id(ns[0])])
    } else {
        program_tokens(ns.drop_last()) + seq![p('|')] + group(Delim::Paren, seq![id(ns.last())])
    }
}

pub open spec fn frame_tokens(f: (Seq<TokV>, Seq<TokV>)) -> Seq<TokV> {
    seq![TokV::Open(Delim::Paren)] + group(Delim::Brace, f.0) + seq![p(',')] + group(Delim::Brace, f.1) + seq![
        TokV::Close(Delim::Paren),
    ]
}

pub open spec fn frames_tokens(fs: Seq<(Seq<TokV>, Seq<TokV>)>) -> Seq<TokV>
    decreases fs.len(),
{
    if fs.len() == 0 {
        seq![]
    } else {
        frames_tokens(fs.drop_last()) + frame_tokens(fs.last())
    }
}

/// The data stack: each part's frames followed by `|`.
pub open spec fn stack_tokens(parts: Seq<Seq<(Seq<TokV>, Seq<TokV>)>>) -> Seq<TokV>
    decreases parts.len(),
{
    if parts.len() == 0 {
        seq![]
    } else {
        stack_tokens(parts.drop_last()) + frames_tokens(parts.last()) + seq![p('|')]
    }
}

/// The tokens of a protocol invocation.
pub open spec fn input_tokens(v: MacroInputV) -> Seq<TokV> {
    head() + divider() + program_tokens(v.program) + divider() + stack_tokens(v.stack)
}

/// Two tokens that are equal but perhaps for the spacing of a punctuation character.
pub open spec fn alike(a: TokV, b: TokV) -> bool {
    a == b || (a is Punct && b is Punct && a->Punct_0 == b->Punct_0)
}

pub open spec fn alike_seq(a: Seq<TokV>, b: Seq<TokV>) -> bool {
    a.len() == b.len() && forall|k: int| 0 <= k < a.len() ==> alike(#[trigger] a[k], b[k])
}

/// The name in `(name)` at `i`.
pub open spec fn paren_ident_spec(t: Seq<TokV>, i: int) -> Option<Seq<char>> {
    if 0 <= i && i + 3 <= t.len() && t[i] == TokV::Open(Delim::Paren) && t[i + 2] == TokV::Close(Delim::Paren)
        && t[i + 1] is Ident {
        Some(t[i + 1]->Ident_0)
    } else {
        None
    }
}

/// The contents of the braced group at `i`, and the position after it.
pub open spec fn braced_spec(t: Seq<TokV>, i: int) -> Option<(Seq<TokV>, int)> {
    if 0 <= i < t.len() && t[i] == TokV::Open(Delim::Brace) {
        match group_close(t, i) {
            Ok(c) => Some((t.subrange(i + 1, c), c + 1)),
            Err(_) => None,
        }
    } else {
        None
    }
}

/// `{ lhs }, { rhs }` filling exactly `t[lo..hi]`.
pub open spec fn inner_spec(t: Seq<TokV>, lo: int, hi: int) -> Option<(Seq<TokV>, Seq<TokV>)> {
    if lo >= hi {
        None
    } else {
        match braced_spec(t, lo) {
            None => None,
            Some((l, j)) => if j >= hi || t[j] != p(',') || j + 1 >= hi {
                None
            } else {
                match braced_spec(t, j + 1) {
                    None => None,
                    Some((r, e)) => if e != hi {
                        None
                    } else {
                        Some((l, r))
                    },
                }
            },
        }
    }
}

/// The frame `({ lhs }, { rhs })` at `i`, and the position after it.
pub open spec fn frame_spec(t: Seq<TokV>, i: int) -> Option<((Seq<TokV>, Seq<TokV>), int)> {
    if 0 <= i < t.len() && t[i] == TokV::Open(Delim::Paren) {
        match group_close(t, i) {
            Err(_) => None,
            Ok(c) => match inner_spec(t, i + 1, c) {
                None => None,
                Some(x) => Some((x, c + 1)),
            },
        }
    } else {
        None
    }
}

pub open spec fn divider_spec(t: Seq<TokV>, i: int) -> bool {
    0 <= i && i + 3 <= t.len() && alike_seq(divider(), t.subrange(i, i + 3))
}

/// Reading `| (name)` pairs from `i`, after the names `acc`, up to a divider.
pub open spec fn program_from(t: Seq<TokV>, i: int, acc: Seq<Seq<char>>) -> Option<(Seq<Seq<char>>, int)>
    decreases t.len() - i,
{
    if divider_spec(t, i) {
        Some((acc, i))
    } else if !(0 <= i < t.len()) || !is_punct(t[i], '|') {
        None
    } else {
        match paren_ident_spec(t, i + 1) {
            None => None,
            Some(x) => program_from(t, i + 4, acc.push(x)),
        }
    }
}

/// The call stack of an invocation, which starts at position 5, and where it ends.
pub open spec fn program_spec(t: Seq<TokV>) -> Option<(Seq<Seq<char>>, int)> {
    if divider_spec(t, 5) {
        Some((seq![], 5))
    } else {
        match paren_ident_spec(t, 5) {
            None => None,
            Some(x) => program_from(t, 8, seq![x]),
        }
    }
}

/// Reading the frames of a data stack part from `i` after the frames `acc`, up to its `|`.
pub open spec fn part_from(t: Seq<TokV>, i: int, acc: Seq<(Seq<TokV>, Seq<TokV>)>) -> Option<
    (Seq<(Seq<TokV>, Seq<TokV>)>, int),
>
    decreases t.len() - i,
{
    if i < 0 || i >= t.len() {
        None
    } else if is_punct(t[i], '|') {
        Some((acc, i))
    } else {
        match frame_spec(t, i) {
            None => None,
            Some((f, j)) => if i < j <= t.len() {
                part_from(t, j, acc.push(f))
            } else {
                None
            },
        }
    }
}

/// Reading data stack parts from `i` after the parts `acc`, up to the end.
pub open spec fn stack_from(t: Seq<TokV>, i: int, acc: Seq<Seq<(Seq<TokV>, Seq<TokV>)>>) -> Option<
    Seq<Seq<(Seq<TokV>, Seq<TokV>)>>,
>
    decreases t.len() - i,
{
    if i < 0 || i >= t.len() {
        Some(acc)
    } else {
        match part_from(t, i, seq![]) {
            None => None,
            Some((q, j)) => if i <= j < t.len() {
                stack_from(t, j + 1, acc.push(q))
            } else {
                None
            },
        }
    }
}

/// The grammar of a protocol invocation.
pub open spec fn decode_spec(t: Seq<TokV>) -> Result<MacroInputV, CpsError> {
    if wrong_marker(t) {
        Err(CpsError::WrongMarker)
    } else if !(t.len() >= 2 && is_punct(t[0], '@') && t[1] == id(marker_name())) || !divider_spec(t, 2) {
        Err(CpsError::MalformedProtocol)
    } else {
        match program_spec(t) {
            None => Err(CpsError::MalformedProtocol),
            Some((program, i)) => match stack_from(t, i + 3, seq![]) {
                None => Err(CpsError::MalformedProtocol),
                Some(stack) => Ok(MacroInputV { program, stack }),
            },
        }
    }
}

/// The invocation starts with `@` and an identifier other than the reserved marker.
pub open spec fn wrong_marker(t: Seq<TokV>) -> bool {
    t.len() >= 2 && is_punct(t[0], '@') && t[1] is Ident && t[1] != id(marker_name())
}

} // verus!

verus! {

proof fn lemma_alike_cat(a: Seq<TokV>, b: Seq<TokV>, c: Seq<TokV>, d: Seq<TokV>)
    requires
        alike_seq(a, b),
        alike_seq(c, d),
    ensures
        alike_seq(a + c, b + d),
{
    assert forall|k: int| 0 <= k < (a + c).len() implies alike(#[trigger] (a + c)[k], (b + d)[k]) by {
        if k < a.len() {
            assert(alike(a[k], b[k]));
        } else {
            assert(alike(c[k - a.len()], d[k - a.len()]));
        }
    }
}

proof fn lemma_alike_refl(a: Seq<TokV>)
    ensures
        alike_seq(a, a),
{
}

/// Extends a known likeness of `spec` with `t[0..i]` by `piece` alike with `t[i..j]`.
proof fn lemma_alike_extend(s: Seq<TokV>, piece: Seq<TokV>, t: Seq<TokV>, i: int, j: int)
    requires
        0 <= i <= j <= t.len(),
        alike_seq(s, t.subrange(0, i)),
        alike_seq(piece, t.subrange(i, j)),
    ensures
        alike_seq(s + piece, t.subrange(0, j)),
{
    lemma_alike_cat(s, t.subrange(0, i), piece, t.subrange(i, j));
    assert(t.subrange(0, i) + t.subrange(i, j) =~= t.subrange(0, j));
}

/// The divider `|:|` between the marker, the call stack and the data stack.
pub struct Divider;

impl Divider {
    pub fn peek(t: &Tokens, i: usize) -> (r: bool)
        requires
            i <= t@.len(),
        ensures
            r == (i + 3 <= t@.len() && alike_seq(divider(), t@.subrange(i as int, i + 3))),
    {
        let n = t.len();
        if n - i < 3 {
            return false;
        }
        let r = t.get(i).is_punct_char('|') && t.get(i + 1).is_punct_char(':') && t.get(i + 2).is_punct_char('|');
        proof {
            let s = t@.subrange(i as int, i + 3);
            if alike_seq(divider(), s) {
                assert(alike(divider()[0], s[0]) && alike(divider()[1], s[1]) && alike(divider()[2], s[2]));
            }
            if r {
                assert forall|k: int| 0 <= k < 3 implies alike(#[trigger] divider()[k], s[k]) by {
                    assert(s[k] == t@[i + k]);
                }
            }
        }
        r
    }
}

/// A continuation name in parentheses, `(name)`.
pub struct ParenthesizedIdent {
    pub ident: String,
}

impl ParenthesizedIdent {
    pub fn parse(t: &Tokens, i: usize) -> (r: Option<ParenthesizedIdent>)
        requires
            i <= t@.len(),
        ensures
            match r {
                Some(p) => i + 3 <= t@.len() && group(Delim::Paren, seq![id(p.ident@)]) == t@.subrange(i as int, i + 3)
                    && paren_ident_spec(t@, i as int) == Some(p.ident@),
                None => paren_ident_spec(t@, i as int) is None,
            },
    {
        let n = t.len();
        if n - i < 3 || !t.get(i).same(&Tok::Open(Delim::Paren)) || !t.get(i + 2).same(&Tok::Close(Delim::Paren)) {
            return None;
        }
        match t.get(i + 1) {
            Tok::Ident(s) => {
                let r = s.clone();
                assert(group(Delim::Paren, seq![id(r@)]) =~= t@.subrange(i as int, i + 3));
                Some(ParenthesizedIdent { ident: r })
            },
            _ => None,
        }
    }
}

/// Tokens in braces, `{ internal }`.
pub struct BracedTS {
    pub internal: Tokens,
}

impl BracedTS {
    /// Reads the braced group at `i`; returns it and the position after it.
    pub fn parse(t: &Tokens, i: usize) -> (r: Result<(BracedTS, usize), CpsError>)
        requires
            i < t@.len(),
        ensures
            match r {
                Ok((b, j)) => i < j <= t@.len() && group(Delim::Brace, b.internal@) == t@.subrange(i as int, j as int)
                    && braced_spec(t@, i as int) == Some((b.internal@, j as int)),
                Err(e) => e == CpsError::MalformedProtocol && braced_spec(t@, i as int) is None,
            },
    {
        // bounds every position in `t` below `usize::MAX`
        let _len = t.len();
        let c = match parse_brace(t, i) {
            Ok(c) => c,
            Err(_) => {
                return Err(CpsError::MalformedProtocol);
            },
        };
        let internal = t.slice(i + 1, c);
        assert(group(Delim::Brace, internal@) =~= t@.subrange(i as int, c + 1));
        Ok((BracedTS { internal }, c + 1))
    }
}

/// The inside of a frame, `{ lhs }, { rhs }`.
pub struct StackElementInner {
    pub lhs: BracedTS,
    pub rhs: BracedTS,
}

impl StackElementInner {
    /// Reads `{ lhs }, { rhs }` filling exactly `t[lo..hi]`.
    pub fn parse(t: &Tokens, lo: usize, hi: usize) -> (r: Result<StackElementInner, CpsError>)
        requires
            lo <= hi <= t@.len(),
        ensures
            match r {
                Ok(e) => group(Delim::Brace, e.lhs.internal@) + seq![p(',')] + group(Delim::Brace, e.rhs.internal@)
                    == t@.subrange(lo as int, hi as int) && inner_spec(t@, lo as int, hi as int) == Some(
                    (e.lhs.internal@, e.rhs.internal@),
                ),
                Err(e) => e == CpsError::MalformedProtocol && inner_spec(t@, lo as int, hi as int) is None,
            },
    {
        if lo >= hi {
            return Err(CpsError::MalformedProtocol);
        }
        let (lhs, j) = BracedTS::parse(t, lo)?;
        if j >= hi || !t.get(j).same(&Tok::alone(',')) || j + 1 >= hi {
            return Err(CpsError::MalformedProtocol);
        }
        let (rhs, e) = BracedTS::parse(t, j + 1)?;
        if e != hi {
            return Err(CpsError::MalformedProtocol);
        }
        assert(t@.subrange(lo as int, hi as int) =~= t@.subrange(lo as int, j as int) + seq![t@[j as int]]
            + t@.subrange(j + 1, hi as int));
        Ok(StackElementInner { lhs, rhs })
    }
}

impl StackElement {
    /// Reads one frame `({ lhs }, { rhs })` at `i`; returns it and the position after it.
    pub fn parse(t: &Tokens, i: usize) -> (r: Result<(StackElement, usize), CpsError>)
        requires
            i < t@.len(),
        ensures
            match r {
                Ok((e, j)) => i < j <= t@.len() && frame_tokens((e.lhs@, e.rhs@)) == t@.subrange(i as int, j as int)
                    && frame_spec(t@, i as int) == Some(((e.lhs@, e.rhs@), j as int)),
                Err(e) => e == CpsError::MalformedProtocol && frame_spec(t@, i as int) is None,
            },
    {
        // bounds every position in `t` below `usize::MAX`
        let _len = t.len();
        let c = match parse_paren(t, i) {
            Ok(c) => c,
            Err(_) => {
                return Err(CpsError::MalformedProtocol);
            },
        };
        let inner = StackElementInner::parse(t, i + 1, c)?;
        let e = StackElement { lhs: inner.lhs.internal, rhs: inner.rhs.internal };
        proof {
            let s = t@;
            assert(s.subrange(i as int, c + 1) =~= seq![s[i as int]] + s.subrange(i + 1, c as int) + seq![s[c as int]]);
            assert(frame_tokens((e.lhs@, e.rhs@)) =~= s.subrange(i as int, c + 1));
        }
        Ok((e, c + 1))
    }
}

} // verus!

verus! {

pub open spec fn names_view(s: Seq<String>) -> Seq<Seq<char>> {
    s.map_values(|x: String| x@)
}

pub open spec fn parts_view(s: Seq<Vec<StackElement>>) -> Seq<Seq<(Seq<TokV>, Seq<TokV>)>> {
    s.map_values(|q: Vec<StackElement>| part_view(q@))
}

/// Decodes a protocol invocation `@_cps |:| call stack |:| data stack`.
pub fn decode(t: &Tokens) -> (r: Result<MacroInput, CpsError>)
    ensures
        match r {
            Ok(v) => alike_seq(input_tokens(v@), t@) && !wrong_marker(t@) && decode_spec(t@) == Ok::<
                MacroInputV,
                CpsError,
            >(v@),
            Err(e) => (e == CpsError::WrongMarker <==> wrong_marker(t@)) && (e == CpsError::WrongMarker || e
                == CpsError::MalformedProtocol) && decode_spec(t@) == Err::<MacroInputV, CpsError>(e),
        },
{
    let n = t.len();
    let at = n >= 2 && t.get(0).is_punct_char('@');
    if at && matches!(t.get(1), Tok::Ident(_)) && !t.get(1).is_ident_str(marker()) {
        return Err(CpsError::WrongMarker);
    }
    if !(at && t.get(1).is_ident_str(marker())) || !Divider::peek(t, 2) {
        return Err(CpsError::MalformedProtocol);
    }
    let ghost s = t@;
    proof {
        assert(alike_seq(head(), s.subrange(0, 2))) by {
            assert(alike(head()[0], s.subrange(0, 2)[0]));
            assert(alike(head()[1], s.subrange(0, 2)[1]));
        }
        lemma_alike_extend(head(), divider(), s, 2, 5);
    }
    let mut i: usize = 5;
    let mut program: Vec<String> = Vec::new();
    assert(head() + divider() + program_tokens(names_view(program@)) =~= head() + divider());
    if !Divider::peek(t, i) {
        let first = match ParenthesizedIdent::parse(t, i) {
            Some(x) => x.ident,
            None => {
                return Err(CpsError::MalformedProtocol);
            },
        };
        let ghost fv = first@;
        program.push(first);
        proof {
            assert(names_view(program@) =~= seq![fv]);
            lemma_alike_refl(s.subrange(5, 8));
            lemma_alike_extend(head() + divider(), program_tokens(seq![fv]), s, 5, 8);
        }
        i = 8;
        while !Divider::peek(t, i)
            invariant
                8 <= i <= n == s.len(),
                s == t@,
                program@.len() > 0,
                program_spec(s) == program_from(s, i as int, names_view(program@)),
                !(!(s.len() >= 2 && is_punct(s[0], '@') && s[1] == id(marker_name())) || !divider_spec(s, 2)),
                alike_seq(head() + divider() + program_tokens(names_view(program@)), s.subrange(0, i as int)),
                !wrong_marker(s),
            decreases n - i,
        {
            if i >= n || !t.get(i).is_punct_char('|') {
                return Err(CpsError::MalformedProtocol);
            }
            let x = match ParenthesizedIdent::parse(t, i + 1) {
                Some(x) => x.ident,
                None => {
                    return Err(CpsError::MalformedProtocol);
                },
            };
            let ghost old_names = names_view(program@);
            let ghost xv = x@;
            program.push(x);
            proof {
                assert(names_view(program@) =~= old_names.push(xv));
                assert(old_names.push(xv).drop_last() =~= old_names);
                let piece = seq![p('|')] + group(Delim::Paren, seq![id(xv)]);
                assert(alike_seq(piece, s.subrange(i as int, i + 4))) by {
                    assert forall|k: int| 0 <= k < 4 implies alike(#[trigger] piece[k], s.subrange(i as int, i + 4)[k]) by {
                        if k > 0 {
                            assert(piece[k] == s.subrange(i + 1, i + 4)[k - 1]);
                        }
                    }
                }
                lemma_alike_extend(head() + divider() + program_tokens(old_names), piece, s, i as int, i + 4);
                assert(head() + divider() + program_tokens(old_names) + piece =~= head() + divider()
                    + program_tokens(names_view(program@)));
            }
            i = i + 4;
        }
    }
    proof {
        lemma_alike_extend(head() + divider() + program_tokens(names_view(program@)), divider(), s, i as int, i + 3);
        if program@.len() == 0 {
            assert(names_view(program@) =~= Seq::<Seq<char>>::empty());
        }
        assert(program_spec(s) == Some((names_view(program@), i as int)));
    }
    i = i + 3;
    let ghost pre = head() + divider() + program_tokens(names_view(program@)) + divider();
    let ghost prog_v = names_view(program@);
    let ghost stack_start = i as int;
    let mut stack: Vec<Vec<StackElement>> = Vec::new();
    assert(pre + stack_tokens(parts_view(stack@)) =~= pre);
    assert(parts_view(stack@) =~= Seq::<Seq<(Seq<TokV>, Seq<TokV>)>>::empty());
    while i < n
        invariant
            i <= n == s.len(),
            s == t@,
            decode_spec(s) == match stack_from(s, stack_start, seq![]) {
                None => Err(CpsError::MalformedProtocol),
                Some(stack) => Ok(MacroInputV { program: prog_v, stack }),
            },
            stack_from(s, stack_start, seq![]) == stack_from(s, i as int, parts_view(stack@)),
            prog_v == names_view(program@),
            alike_seq(pre + stack_tokens(parts_view(stack@)), s.subrange(0, i as int)),
            pre == head() + divider() + program_tokens(names_view(program@)) + divider(),
            !wrong_marker(s),
        decreases n - i,
    {
        let mut part: Vec<StackElement> = Vec::new();
        let ghost base = pre + stack_tokens(parts_view(stack@));
        let ghost part_start = i as int;
        assert(base + frames_tokens(part_view(part@)) =~= base);
        assert(part_view(part@) =~= Seq::<(Seq<TokV>, Seq<TokV>)>::empty());
        while i < n && !t.get(i).is_punct_char('|')
            invariant
                0 <= part_start <= i <= n == s.len(),
                part_start < n,
                s == t@,
                part_from(s, part_start, seq![]) == part_from(s, i as int, part_view(part@)),
                decode_spec(s) == match stack_from(s, stack_start, seq![]) {
                    None => Err(CpsError::MalformedProtocol),
                    Some(stack) => Ok(MacroInputV { program: prog_v, stack }),
                },
                stack_from(s, stack_start, seq![]) == stack_from(s, part_start, parts_view(stack@)),
                alike_seq(base + frames_tokens(part_view(part@)), s.subrange(0, i as int)),
                !wrong_marker(s),
            decreases n - i,
        {
            let (e, j) = match StackElement::parse(t, i) {
                Ok(x) => x,
                Err(err) => {
                    assert(part_from(s, i as int, part_view(part@)) is None);
                    assert(0 <= part_start < s.len());
                    assert(part_from(s, part_start, Seq::<(Seq<TokV>, Seq<TokV>)>::empty()) is None);
                    assert(stack_from(s, part_start, parts_view(stack@)) is None);
                    return Err(err);
                },
            };
            let ghost old_part = part_view(part@);
            let ghost ev = (e.lhs@, e.rhs@);
            part.push(e);
            proof {
                assert(part_view(part@) =~= old_part.push(ev));
                assert(old_part.push(ev).drop_last() =~= old_part);
                lemma_alike_refl(s.subrange(i as int, j as int));
                lemma_alike_extend(base + frames_tokens(old_part), frame_tokens(ev), s, i as int, j as int);
                assert(base + frames_tokens(old_part) + frame_tokens(ev) =~= base + frames_tokens(part_view(part@)));
            }
            i = j;
        }
        if i >= n {
            return Err(CpsError::MalformedProtocol);
        }
        let ghost pv = part_view(part@);
        let ghost old_stack = parts_view(stack@);
        stack.push(part);
        proof {
            assert(parts_view(stack@) =~= old_stack.push(pv));
            assert(old_stack.push(pv).drop_last() =~= old_stack);
            assert(alike_seq(seq![p('|')], s.subrange(i as int, i + 1))) by {
                assert(alike(seq![p('|')][0], s.subrange(i as int, i + 1)[0]));
            }
            lemma_alike_extend(base + frames_tokens(pv), seq![p('|')], s, i as int, i + 1);
            assert(base + frames_tokens(pv) + seq![p('|')] =~= pre + stack_tokens(parts_view(stack@)));
        }
        i = i + 1;
    }
    let v = MacroInput { program, stack };
    assert(input_tokens(v@) =~= pre + stack_tokens(parts_view(v.stack@)));
    assert(s.subrange(0, n as int) =~= s);
    Ok(v)
}

} // verus!

verus! {

/// A leaf computation that can stand on the right of a sequential binding:
/// it reads its single argument and computes its result in one step.
pub trait CPSProcMacro {
    /// What the computation makes of its argument.
    spec fn step_spec(input: Seq<TokV>) -> Result<Seq<TokV>, CpsError>;

    fn step(input: &Tokens) -> (r: Result<Tokens, CpsError>)
        ensures
            match r {
                Ok(o) => Self::step_spec(input@) == Ok::<Seq<TokV>, CpsError>(o@),
                Err(e) => Self::step_spec(input@) == Err::<Seq<TokV>, CpsError>(e),
            },
    ;
}

/// The argument of a leaf computation: the value of the single frame of the top data stack part.
pub open spec fn argument_of(v: MacroInputV) -> Option<Seq<TokV>> {
    if v.stack.len() > 0 && v.stack[0].len() == 1 {
        Some(v.stack[0][0].0)
    } else {
        None
    }
}

/// What follows a leaf computation that returned `res`: the result itself
/// when no continuation is waiting (and nothing else is on the data stack),
/// else an invocation of the first continuation with `res` on top of the
/// rest of the data stack.
pub open spec fn after_step(v: MacroInputV, res: Seq<TokV>) -> Option<Seq<TokV>> {
    let rest = v.stack.drop_first();
    if v.program.len() == 0 {
        if rest.len() == 0 {
            Some(res)
        } else {
            None
        }
    } else {
        Some(next_step(seq![id(v.program[0])], program_tokens(v.program.drop_first()), res, stack_tokens(rest)))
    }
}

/// Reads the argument of a leaf computation from a decoded invocation.
pub fn take_argument(v: &MacroInput) -> (r: Result<Tokens, CpsError>)
    ensures
        match r {
            Ok(a) => argument_of(v@) == Some(a@),
            Err(e) => argument_of(v@) is None && e == CpsError::ArgumentCount,
        },
{
    if v.stack.len() == 0 || v.stack[0].len() != 1 {
        assert(v@.stack.len() == v.stack@.len());
        if v.stack.len() > 0 {
            assert(v@.stack[0].len() == v.stack@[0]@.len());
        }
        return Err(CpsError::ArgumentCount);
    }
    assert(v@.stack[0][0].0 == v.stack@[0]@[0].lhs@);
    Ok(v.stack[0][0].lhs.duplicate())
}

fn program_tokens_exec(names: &Vec<String>, from: usize) -> (r: Tokens)
    requires
        from <= names@.len(),
    ensures
        r@ == program_tokens(names_view(names@).subrange(from as int, names@.len() as int)),
{
    let ghost nv = names_view(names@);
    let mut out = Tokens::new();
    let mut k = from;
    assert(nv.subrange(from as int, from as int) =~= Seq::<Seq<char>>::empty());
    while k < names.len()
        invariant
            from <= k <= names@.len() == nv.len(),
            nv == names_view(names@),
            out@ == program_tokens(nv.subrange(from as int, k as int)),
        decreases names@.len() - k,
    {
        let ghost before = out@;
        let ghost sub = nv.subrange(from as int, k + 1);
        assert(sub.drop_last() =~= nv.subrange(from as int, k as int));
        assert(sub.last() == names@[k as int]@);
        if k > from {
            out.push_alone('|');
        }
        out.push(Tok::Open(Delim::Paren));
        out.push(Tok::Ident(names[k].clone()));
        out.push(Tok::Close(Delim::Paren));
        if k == from {
            assert(sub.len() == 1 && sub[0] == sub.last());
        }
        assert(out@ =~= program_tokens(sub));
        k = k + 1;
    }
    out
}

fn stack_tokens_exec(stack: &Vec<Vec<StackElement>>, from: usize) -> (r: Tokens)
    requires
        from <= stack@.len(),
    ensures
        r@ == stack_tokens(parts_view(stack@).subrange(from as int, stack@.len() as int)),
{
    let ghost sv = parts_view(stack@);
    let mut out = Tokens::new();
    let mut k = from;
    assert(sv.subrange(from as int, from as int) =~= Seq::<Seq<(Seq<TokV>, Seq<TokV>)>>::empty());
    while k < stack.len()
        invariant
            from <= k <= stack@.len() == sv.len(),
            sv == parts_view(stack@),
            out@ == stack_tokens(sv.subrange(from as int, k as int)),
        decreases stack@.len() - k,
    {
        let part = &stack[k];
        let ghost pv = part_view(part@);
        let ghost start = out@;
        let mut q: usize = 0;
        assert(pv.subrange(0, 0) =~= Seq::<(Seq<TokV>, Seq<TokV>)>::empty());
        while q < part.len()
            invariant
                q <= part@.len() == pv.len(),
                pv == part_view(part@),
                out@ == start + frames_tokens(pv.subrange(0, q as int)),
            decreases part@.len() - q,
        {
            let e = &part[q];
            let ghost before = out@;
            out.push(Tok::Open(Delim::Paren));
            out.push(Tok::Open(Delim::Brace));
            out.extend(&e.lhs);
            out.push(Tok::Close(Delim::Brace));
            out.push_alone(',');
            out.push(Tok::Open(Delim::Brace));
            out.extend(&e.rhs);
            out.push(Tok::Close(Delim::Brace));
            out.push(Tok::Close(Delim::Paren));
            assert(pv[q as int] == (e.lhs@, e.rhs@));
            assert(out@ =~= before + frame_tokens(pv[q as int]));
            assert(pv.subrange(0, q + 1).drop_last() =~= pv.subrange(0, q as int));
            q = q + 1;
        }
        assert(pv.subrange(0, pv.len() as int) =~= pv);
        out.push_alone('|');
        let ghost sub = sv.subrange(from as int, k + 1);
        assert(sub.drop_last() =~= sv.subrange(from as int, k as int));
        assert(sub.last() == pv);
        assert(out@ =~= stack_tokens(sub));
        k = k + 1;
    }
    out
}

/// Builds what follows a leaf computation that returned `res`.
pub fn finish_step(v: &MacroInput, res: &Tokens) -> (r: Result<Tokens, CpsError>)
    requires
        v@.stack.len() > 0,
    ensures
        match r {
            Ok(o) => after_step(v@, res@) == Some(o@),
            Err(e) => after_step(v@, res@) is None && e == CpsError::StackNotEmpty,
        },
{
    let ghost nv = names_view(v.program@);
    let ghost sv = parts_view(v.stack@);
    assert(v@.program == nv && v@.stack == sv);
    if v.program.len() == 0 {
        if v.stack.len() != 1 {
            return Err(CpsError::StackNotEmpty);
        }
        return Ok(res.duplicate());
    }
    let mut h = Tokens::new();
    h.push(Tok::Ident(v.program[0].clone()));
    assert(h@ =~= seq![id(nv[0])]);
    let prog = program_tokens_exec(&v.program, 1);
    let stack = stack_tokens_exec(&v.stack, 1);
    assert(nv.subrange(1, nv.len() as int) =~= nv.drop_first());
    assert(sv.subrange(1, sv.len() as int) =~= sv.drop_first());
    Ok(build_next_step(&h, &prog, res, &stack))
}

/// Runs the leaf computation `M` on a protocol invocation: decode it, read
/// the single argument, compute, and build what follows.
pub fn perform_macro<M: CPSProcMacro>(item: &Tokens) -> (r: Result<Tokens, CpsError>)
    ensures
        match r {
            Ok(o) => crate::leaf::leaf_result(item@, |a: Seq<TokV>| M::step_spec(a)) == Ok::<Seq<TokV>, CpsError>(o@),
            Err(e) => crate::leaf::leaf_result(item@, |a: Seq<TokV>| M::step_spec(a)) == Err::<Seq<TokV>, CpsError>(e),
        },
{
    let v = decode(item)?;
    let arg = take_argument(&v)?;
    let res = M::step(&arg)?;
    finish_step(&v, &res)
}

} // verus!
