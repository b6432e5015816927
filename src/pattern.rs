use vstd::prelude::*;
use crate::error::CpsError;
use crate::tokens::{id, is_punct, marker, marker_name, p, Delim, Tok, TokV, Tokens};

verus! {

/// How often a repetition may occur: `*`, `+` or `?`.
#[derive(Clone, Copy, PartialEq, Eq, Debug, Structural)]
pub enum MacroRepOp {
    Times,
    Plus,
    Optional,
}

pub open spec fn op_char(op: MacroRepOp) -> char {
    match op {
        MacroRepOp::Times => '*',
        MacroRepOp::Plus => '+',
        MacroRepOp::Optional => '?',
    }
}

pub open spec fn op_of(c: char) -> Option<MacroRepOp> {
    if c == '*' {
        Some(MacroRepOp::Times)
    } else if c == '+' {
        Some(MacroRepOp::Plus)
    } else if c == '?' {
        Some(MacroRepOp::Optional)
    } else {
        None
    }
}

impl MacroRepOp {
    pub fn to_char(&self) -> (r: char)
        ensures
            r == op_char(*self),
    {
        match self {
            MacroRepOp::Times => '*',
            MacroRepOp::Plus => '+',
            MacroRepOp::Optional => '?',
        }
    }
}

/// A capture `$identifier:macro_frag_spec`.
#[derive(Clone, Debug)]
pub struct MacroVariableIdentifier {
    pub identifier: String,
    pub macro_frag_spec: String,
}

/// The separator token of a repetition.
#[derive(Clone, Debug)]
pub struct MacroRepSep {
    pub token: Tok,
}

/// The closing part of a repetition: `) sep? op`.
#[derive(Clone, Debug)]
pub struct MacroRepetition {
    pub rep_sep: Option<MacroRepSep>,
    pub rep_op: MacroRepOp,
    /// Whether the operator token is joined to the token after it.
    pub op_joint: bool,
}

/// One element of a flat matcher. A literal group is its open token, its
/// contents and its close token; a repetition is `RepetitionOpen`, its
/// contents and `RepetitionClose`.
#[derive(Clone, Debug)]
pub enum MacroMatch {
    Token(Tok),
    Identifier(MacroVariableIdentifier),
    RepetitionOpen,
    RepetitionClose(MacroRepetition),
}

/// The mathematical value of a matcher element.
pub enum MatchV {
    Token(TokV),
    Var(Seq<char>, Seq<char>),
    RepOpen,
    RepClose(Option<TokV>, MacroRepOp, bool),
}

impl View for MacroMatch {
    type V = MatchV;

    open spec fn view(&self) -> MatchV {
        match self {
            MacroMatch::Token(t) => MatchV::Token(t@),
            MacroMatch::Identifier(v) => MatchV::Var(v.identifier@, v.macro_frag_spec@),
            MacroMatch::RepetitionOpen => MatchV::RepOpen,
            MacroMatch::RepetitionClose(r) => MatchV::RepClose(
                match r.rep_sep {
                    Some(s) => Some(s.token@),
                    None => None,
                },
                r.rep_op,
                r.op_joint,
            ),
        }
    }
}

/// A pattern: a flat sequence of matcher elements.
#[derive(Clone, Debug)]
pub struct MacroMatcher {
    pub matches: Vec<MacroMatch>,
}

pub open spec fn match_views(s: Seq<MacroMatch>) -> Seq<MatchV> {
    s.map_values(|m: MacroMatch| m@)
}

impl View for MacroMatcher {
    type V = Seq<MatchV>;

    open spec fn view(&self) -> Seq<MatchV> {
        match_views(self.matches@)
    }
}

/// The tokens that write one matcher element.
pub open spec fn render_one(m: MatchV) -> Seq<TokV> {
    match m {
        MatchV::Token(t) => seq![t],
        MatchV::Var(n, k) => seq![p('$'), id(n), p(':'), id(k)],
        MatchV::RepOpen => seq![p('$'), TokV::Open(Delim::Paren)],
        MatchV::RepClose(sep, op, j) => match sep {
            Some(s) => seq![TokV::Close(Delim::Paren), s, TokV::Punct(op_char(op), j)],
            None => seq![TokV::Close(Delim::Paren), TokV::Punct(op_char(op), j)],
        },
    }
}

/// The tokens that write a matcher.
pub open spec fn render(s: Seq<MatchV>) -> Seq<TokV>
    decreases s.len(),
{
    if s.len() == 0 {
        seq![]
    } else {
        render(s.drop_last()) + render_one(s.last())
    }
}

/// The rewrite tokens that reproduce what one matcher element matched:
/// a capture becomes a substitution of the same name, a repetition a
/// repeated substitution.
pub open spec fn reproduce_one(m: MatchV) -> Seq<TokV> {
    match m {
        MatchV::Token(t) => seq![t],
        MatchV::Var(n, k) => seq![p('$'), id(n)],
        MatchV::RepOpen => seq![p('$'), TokV::Open(Delim::Paren)],
        MatchV::RepClose(sep, op, j) => match sep {
            Some(s) => seq![TokV::Close(Delim::Paren), s, p('*')],
            None => seq![TokV::Close(Delim::Paren), p('*')],
        },
    }
}

/// The reproduction of a matcher as rewrite tokens.
pub open spec fn reproduce(s: Seq<MatchV>) -> Seq<TokV>
    decreases s.len(),
{
    if s.len() == 0 {
        seq![]
    } else {
        reproduce(s.drop_last()) + reproduce_one(s.last())
    }
}

pub proof fn lemma_render_add(a: Seq<MatchV>, b: Seq<MatchV>)
    ensures
        render(a + b) == render(a) + render(b),
        reproduce(a + b) == reproduce(a) + reproduce(b),
    decreases b.len(),
{
    if b.len() == 0 {
        assert(a + b =~= a);
        assert(render(a) + render(b) =~= render(a));
        assert(reproduce(a) + reproduce(b) =~= reproduce(a));
    } else {
        lemma_render_add(a, b.drop_last());
        assert((a + b).drop_last() =~= a + b.drop_last());
        assert((a + b).last() == b.last());
        assert(render(a) + render(b) =~= render(a) + render(b.drop_last()) + render_one(b.last()));
        assert(reproduce(a) + reproduce(b) =~= reproduce(a) + reproduce(b.drop_last())
            + reproduce_one(b.last()));
    }
}

pub proof fn lemma_render_push(a: Seq<MatchV>, m: MatchV)
    ensures
        render(a.push(m)) == render(a) + render_one(m),
        reproduce(a.push(m)) == reproduce(a) + reproduce_one(m),
{
    assert(a.push(m).drop_last() =~= a);
}

/// What the parser keeps open while it reads a matcher.
#[derive(Clone, Copy, PartialEq, Eq, Debug, Structural)]
pub enum Frame {
    Group(Delim),
    Rep,
}

pub open spec fn is_delim(t: TokV) -> bool {
    t is Open || t is Close
}

pub open spec fn rep_op_of(t: TokV) -> Option<(MacroRepOp, bool)> {
    match t {
        TokV::Punct(c, j) => match op_of(c) {
            Some(op) => Some((op, j)),
            None => None,
        },
        _ => None,
    }
}

/// One step of reading a matcher at position `i` (`i < t.len()`): the element
/// read, how many tokens it takes, and the open groups after it; or the error.
pub open spec fn parse_step(t: Seq<TokV>, i: int, st: Seq<Frame>) -> Result<
    (MatchV, int, Seq<Frame>),
    CpsError,
> {
    let x = t[i];
    if x == p('$') && i + 1 < t.len() && t[i + 1] is Ident {
        if i + 3 < t.len() && t[i + 2] == p(':') && t[i + 3] is Ident {
            Ok((MatchV::Var(t[i + 1]->Ident_0, t[i + 3]->Ident_0), 4, st))
        } else {
            Err(CpsError::MissingFragmentKind)
        }
    } else if x == p('$') && i + 1 < t.len() && t[i + 1] == TokV::Open(Delim::Paren) {
        Ok((MatchV::RepOpen, 2, st.push(Frame::Rep)))
    } else {
        match x {
            TokV::Open(d) => Ok((MatchV::Token(x), 1, st.push(Frame::Group(d)))),
            TokV::Close(d) => {
                if st.len() > 0 && st.last() == Frame::Group(d) {
                    Ok((MatchV::Token(x), 1, st.drop_last()))
                } else if st.len() > 0 && st.last() == Frame::Rep && d == Delim::Paren {
                    if i + 1 < t.len() && rep_op_of(t[i + 1]) is Some {
                        let (op, j) = rep_op_of(t[i + 1])->0;
                        Ok((MatchV::RepClose(None, op, j), 2, st.drop_last()))
                    } else if i + 2 < t.len() && !is_delim(t[i + 1]) && rep_op_of(t[i + 2]) is Some {
                        let (op, j) = rep_op_of(t[i + 2])->0;
                        Ok((MatchV::RepClose(Some(t[i + 1]), op, j), 3, st.drop_last()))
                    } else {
                        Err(CpsError::MissingRepetitionOperator)
                    }
                } else {
                    Err(CpsError::Unbalanced)
                }
            },
            _ => Ok((MatchV::Token(x), 1, st)),
        }
    }
}

/// The grammar of matchers: reading `t` from position `i` with the groups
/// `st` open and the elements `acc` read so far.
pub open spec fn parse_from(t: Seq<TokV>, i: int, st: Seq<Frame>, acc: Seq<MatchV>) -> Result<
    Seq<MatchV>,
    CpsError,
>
    decreases t.len() - i,
{
    if i < 0 || i >= t.len() {
        if st.len() == 0 {
            Ok(acc)
        } else {
            Err(CpsError::Unbalanced)
        }
    } else {
        match parse_step(t, i, st) {
            Ok((m, n, st2)) => if n >= 1 {
                parse_from(t, i + n, st2, acc.push(m))
            } else {
                Err(CpsError::Unbalanced)
            },
            Err(e) => Err(e),
        }
    }
}

/// The matcher that a token sequence reads as, or why it does not read as one.
pub open spec fn parse_matcher_spec(t: Seq<TokV>) -> Result<Seq<MatchV>, CpsError> {
    parse_from(t, 0, seq![], seq![])
}

proof fn lemma_parse_step_tokens(t: Seq<TokV>, i: int, st: Seq<Frame>)
    requires
        0 <= i < t.len(),
        parse_step(t, i, st) is Ok,
    ensures
        ({
            let (m, n, st2) = parse_step(t, i, st)->Ok_0;
            1 <= n && i + n <= t.len() && render_one(m) == t.subrange(i, i + n)
        }),
{
    let (m, n, st2) = parse_step(t, i, st)->Ok_0;
    match m {
        MatchV::RepClose(sep, op, j) => {
            if sep is Some {
                assert(t[i + 2] == TokV::Punct(op_char(op), j));
            } else {
                assert(t[i + 1] == TokV::Punct(op_char(op), j));
            }
        },
        _ => {},
    }
    assert(render_one(m) =~= t.subrange(i, i + n));
}

proof fn lemma_parse_from_tokens(t: Seq<TokV>, i: int, st: Seq<Frame>, acc: Seq<MatchV>)
    requires
        0 <= i <= t.len(),
        parse_from(t, i, st, acc) is Ok,
    ensures
        render(parse_from(t, i, st, acc)->Ok_0) == render(acc) + t.subrange(i, t.len() as int),
    decreases t.len() - i,
{
    if i >= t.len() {
        assert(render(acc) + t.subrange(i, t.len() as int) =~= render(acc));
    } else {
        lemma_parse_step_tokens(t, i, st);
        let (m, n, st2) = parse_step(t, i, st)->Ok_0;
        lemma_parse_from_tokens(t, i + n, st2, acc.push(m));
        lemma_render_push(acc, m);
        assert(render(acc) + t.subrange(i, t.len() as int) =~= render(acc) + t.subrange(i, i + n)
            + t.subrange(i + n, t.len() as int));
    }
}

/// A matcher that the parser accepts is written by exactly the tokens it was read from.
pub proof fn lemma_parse_round_trip(t: Seq<TokV>)
    requires
        parse_matcher_spec(t) is Ok,
    ensures
        render(parse_matcher_spec(t)->Ok_0) == t,
{
    lemma_parse_from_tokens(t, 0, seq![], seq![]);
    assert(render(seq![]) + t.subrange(0, t.len() as int) =~= t);
}

impl MacroMatch {
    pub fn duplicate(&self) -> (r: MacroMatch)
        ensures
            r@ == self@,
    {
        match self {
            MacroMatch::Token(t) => MacroMatch::Token(t.duplicate()),
            MacroMatch::Identifier(v) => MacroMatch::Identifier(
                MacroVariableIdentifier {
                    identifier: v.identifier.clone(),
                    macro_frag_spec: v.macro_frag_spec.clone(),
                },
            ),
            MacroMatch::RepetitionOpen => MacroMatch::RepetitionOpen,
            MacroMatch::RepetitionClose(r) => MacroMatch::RepetitionClose(
                MacroRepetition {
                    rep_sep: match &r.rep_sep {
                        Some(s) => Some(MacroRepSep { token: s.token.duplicate() }),
                        None => None,
                    },
                    rep_op: r.rep_op,
                    op_joint: r.op_joint,
                },
            ),
        }
    }

    /// Appends the tokens that write this element.
    pub fn to_tokens(&self, out: &mut Tokens)
        ensures
            final(out)@ == old(out)@ + render_one(self@),
    {
        let ghost o = out@;
        match self {
            MacroMatch::Token(t) => {
                out.push(t.duplicate());
            },
            MacroMatch::Identifier(v) => {
                out.push_alone('$');
                out.push(Tok::Ident(v.identifier.clone()));
                out.push_alone(':');
                out.push(Tok::Ident(v.macro_frag_spec.clone()));
            },
            MacroMatch::RepetitionOpen => {
                out.push_alone('$');
                out.push(Tok::Open(Delim::Paren));
            },
            MacroMatch::RepetitionClose(r) => {
                out.push(Tok::Close(Delim::Paren));
                match &r.rep_sep {
                    Some(s) => out.push(s.token.duplicate()),
                    None => {},
                }
                out.push(Tok::Punct(r.rep_op.to_char(), r.op_joint));
            },
        }
        assert(out@ =~= o + render_one(self@));
    }

    /// Appends the rewrite tokens that reproduce what this element matched.
    pub fn build_output_clone(&self, out: &mut Tokens)
        ensures
            final(out)@ == old(out)@ + reproduce_one(self@),
    {
        let ghost o = out@;
        match self {
            MacroMatch::Token(t) => {
                out.push(t.duplicate());
            },
            MacroMatch::Identifier(v) => {
                v.build_output_clone(out);
            },
            MacroMatch::RepetitionOpen => {
                out.push_alone('$');
                out.push(Tok::Open(Delim::Paren));
            },
            MacroMatch::RepetitionClose(r) => {
                r.build_output_clone(out);
            },
        }
        assert(out@ =~= o + reproduce_one(self@));
    }
}

impl MacroVariableIdentifier {
    /// Appends `$identifier`, the substitution of this capture.
    pub fn build_output_clone(&self, out: &mut Tokens)
        ensures
            final(out)@ == old(out)@ + seq![p('$'), id(self.identifier@)],
    {
        let ghost o = out@;
        out.push_alone('$');
        out.push(Tok::Ident(self.identifier.clone()));
        assert(out@ =~= o + seq![p('$'), id(self.identifier@)]);
    }
}

impl MacroRepetition {
    /// Appends `) sep? *`, the end of the repeated substitution.
    pub fn build_output_clone(&self, out: &mut Tokens)
        ensures
            final(out)@ == old(out)@ + match self.rep_sep {
                Some(s) => seq![TokV::Close(Delim::Paren), s.token@, p('*')],
                None => seq![TokV::Close(Delim::Paren), p('*')],
            },
    {
        let ghost o = out@;
        out.push(Tok::Close(Delim::Paren));
        match &self.rep_sep {
            Some(s) => out.push(s.token.duplicate()),
            None => {},
        }
        out.push_alone('*');
        assert(out@ =~= o + match self.rep_sep {
            Some(s) => seq![TokV::Close(Delim::Paren), s.token@, p('*')],
            None => seq![TokV::Close(Delim::Paren), p('*')],
        });
    }
}

impl MacroMatcher {
    pub fn new() -> (r: MacroMatcher)
        ensures
            r@ == Seq::<MatchV>::empty(),
    {
        let r = MacroMatcher { matches: Vec::new() };
        assert(r@ =~= Seq::<MatchV>::empty());
        r
    }

    pub fn len(&self) -> (r: usize)
        ensures
            r == self@.len(),
    {
        self.matches.len()
    }

    pub fn push(&mut self, m: MacroMatch)
        ensures
            final(self)@ == old(self)@.push(m@),
    {
        self.matches.push(m);
        assert(final(self)@ =~= old(self)@.push(m@));
    }

    pub fn duplicate(&self) -> (r: MacroMatcher)
        ensures
            r@ == self@,
    {
        let mut r = MacroMatcher::new();
        let mut i: usize = 0;
        while i < self.matches.len()
            invariant
                i <= self@.len(),
                r@ == self@.subrange(0, i as int),
            decreases self@.len() - i,
        {
            r.push(self.matches[i].duplicate());
            assert(self@.subrange(0, i + 1) =~= self@.subrange(0, i as int).push(self@[i as int]));
            i = i + 1;
        }
        assert(self@.subrange(0, self@.len() as int) =~= self@);
        r
    }

    /// Appends the tokens that write this matcher.
    pub fn to_tokens(&self, out: &mut Tokens)
        ensures
            final(out)@ == old(out)@ + render(self@),
    {
        let ghost o = out@;
        let mut i: usize = 0;
        while i < self.matches.len()
            invariant
                i <= self@.len(),
                out@ == o + render(self@.subrange(0, i as int)),
            decreases self@.len() - i,
        {
            self.matches[i].to_tokens(out);
            proof {
                assert(self@.subrange(0, i + 1) =~= self@.subrange(0, i as int).push(self@[i as int]));
                lemma_render_push(self@.subrange(0, i as int), self@[i as int]);
            }
            i = i + 1;
        }
        assert(self@.subrange(0, self@.len() as int) =~= self@);
    }

    /// Appends the rewrite tokens that reproduce exactly what this matcher matched.
    pub fn build_output_clone(&self, out: &mut Tokens)
        ensures
            final(out)@ == old(out)@ + reproduce(self@),
    {
        let ghost o = out@;
        let mut i: usize = 0;
        while i < self.matches.len()
            invariant
                i <= self@.len(),
                out@ == o + reproduce(self@.subrange(0, i as int)),
            decreases self@.len() - i,
        {
            self.matches[i].build_output_clone(out);
            proof {
                assert(self@.subrange(0, i + 1) =~= self@.subrange(0, i as int).push(self@[i as int]));
                lemma_render_push(self@.subrange(0, i as int), self@[i as int]);
            }
            i = i + 1;
        }
        assert(self@.subrange(0, self@.len() as int) =~= self@);
    }
}

} // verus!

verus! {

fn rep_op_at(t: &Tokens, i: usize) -> (r: Option<(MacroRepOp, bool)>)
    requires
        i < t@.len(),
    ensures
        r == rep_op_of(t@[i as int]),
{
    match t.get(i) {
        Tok::Punct(c, j) => {
            if *c == '*' {
                Some((MacroRepOp::Times, *j))
            } else if *c == '+' {
                Some((MacroRepOp::Plus, *j))
            } else if *c == '?' {
                Some((MacroRepOp::Optional, *j))
            } else {
                None
            }
        },
        _ => None,
    }
}

fn is_delim_tok(t: &Tok) -> (r: bool)
    ensures
        r == is_delim(t@),
{
    match t {
        Tok::Open(_) => true,
        Tok::Close(_) => true,
        _ => false,
    }
}

/// Reads one matcher element at position `i`, updating the open groups.
fn parse_step_exec(t: &Tokens, i: usize, st: &mut Vec<Frame>) -> (r: Result<(MacroMatch, usize), CpsError>)
    requires
        i < t@.len(),
    ensures
        match r {
            Ok((m, n)) => parse_step(t@, i as int, old(st)@) == Ok::<(MatchV, int, Seq<Frame>), CpsError>(
                (m@, n as int, final(st)@),
            ),
            Err(e) => parse_step(t@, i as int, old(st)@) == Err::<(MatchV, int, Seq<Frame>), CpsError>(e),
        },
{
    let x = t.get(i);
    let rem = t.len() - i;
    let dollar = x.same(&Tok::alone('$'));
    if dollar && rem > 1 && matches!(t.get(i + 1), Tok::Ident(_)) {
        if rem > 3 && t.get(i + 2).same(&Tok::alone(':')) && matches!(t.get(i + 3), Tok::Ident(_)) {
            let n = match t.get(i + 1) {
                Tok::Ident(s) => s.clone(),
                _ => String::new(),
            };
            let k = match t.get(i + 3) {
                Tok::Ident(s) => s.clone(),
                _ => String::new(),
            };
            return Ok(
                (MacroMatch::Identifier(MacroVariableIdentifier { identifier: n, macro_frag_spec: k }), 4),
            );
        } else {
            return Err(CpsError::MissingFragmentKind);
        }
    }
    if dollar && rem > 1 && t.get(i + 1).same(&Tok::Open(Delim::Paren)) {
        st.push(Frame::Rep);
        return Ok((MacroMatch::RepetitionOpen, 2));
    }
    match x {
        Tok::Open(d) => {
            st.push(Frame::Group(*d));
            Ok((MacroMatch::Token(x.duplicate()), 1))
        },
        Tok::Close(d) => {
            let n = st.len();
            if n > 0 && st[n - 1] == Frame::Group(*d) {
                st.pop();
                Ok((MacroMatch::Token(x.duplicate()), 1))
            } else if n > 0 && st[n - 1] == Frame::Rep && *d == Delim::Paren {
                if rem > 1 && rep_op_at(t, i + 1).is_some() {
                    let (op, j) = rep_op_at(t, i + 1).unwrap();
                    st.pop();
                    Ok((MacroMatch::RepetitionClose(MacroRepetition { rep_sep: None, rep_op: op, op_joint: j }), 2))
                } else if rem > 2 && !is_delim_tok(t.get(i + 1)) && rep_op_at(t, i + 2).is_some() {
                    let (op, j) = rep_op_at(t, i + 2).unwrap();
                    st.pop();
                    let sep = MacroRepSep { token: t.get(i + 1).duplicate() };
                    Ok(
                        (
                            MacroMatch::RepetitionClose(
                                MacroRepetition { rep_sep: Some(sep), rep_op: op, op_joint: j },
                            ),
                            3,
                        ),
                    )
                } else {
                    Err(CpsError::MissingRepetitionOperator)
                }
            } else {
                Err(CpsError::Unbalanced)
            }
        },
        _ => Ok((MacroMatch::Token(x.duplicate()), 1)),
    }
}

/// Parses a token sequence as a matcher (a rule's pattern).
pub fn parse_matcher(t: &Tokens) -> (r: Result<MacroMatcher, CpsError>)
    ensures
        match r {
            Ok(m) => parse_matcher_spec(t@) == Ok::<Seq<MatchV>, CpsError>(m@),
            Err(e) => parse_matcher_spec(t@) == Err::<Seq<MatchV>, CpsError>(e),
        },
        r is Ok ==> render(r->Ok_0@) == t@,
{
    let mut st: Vec<Frame> = Vec::new();
    let mut acc = MacroMatcher::new();
    let mut i: usize = 0;
    while i < t.len()
        invariant
            i <= t@.len(),
            parse_matcher_spec(t@) == parse_from(t@, i as int, st@, acc@),
        decreases t@.len() - i,
    {
        let ghost st0 = st@;
        match parse_step_exec(t, i, &mut st) {
            Ok((m, n)) => {
                proof {
                    lemma_parse_step_tokens(t@, i as int, st0);
                }
                acc.push(m);
                i = i + n;
            },
            Err(e) => {
                return Err(e);
            },
        }
    }
    if st.len() > 0 {
        return Err(CpsError::Unbalanced);
    }
    proof {
        lemma_parse_round_trip(t@);
    }
    Ok(acc)
}

/// Whether a pattern begins with the reserved marker `@_cps`.
pub open spec fn begins_with_marker(m: Seq<MatchV>) -> bool {
    m.len() >= 2 && m[0] is Token && is_punct(m[0]->Token_0, '@') && m[1] == MatchV::Token(
        id(marker_name()),
    )
}

pub fn begins_with_cps_marker(item: &MacroMatcher) -> (r: bool)
    ensures
        r == begins_with_marker(item@),
{
    if item.matches.len() < 2 {
        return false;
    }
    let first = match &item.matches[0] {
        MacroMatch::Token(t) => t.is_punct_char('@'),
        _ => false,
    };
    let second = match &item.matches[1] {
        MacroMatch::Token(t) => t.is_ident_str(marker()),
        _ => false,
    };
    first && second
}

} // verus!

verus! {

/// The tokens that a matcher of literal tokens, groups and captures matches
/// when each capture named `n` has matched the tokens `f(n)`.
pub open spec fn instance(m: Seq<MatchV>, f: spec_fn(Seq<char>) -> Seq<TokV>) -> Seq<TokV>
    decreases m.len(),
{
    if m.len() == 0 {
        seq![]
    } else {
        instance(m.drop_last(), f) + instance_one(m.last(), f)
    }
}

/// What one element of such a matcher matches: a literal token itself, a
/// capture `n` (alone, or repeated as `$( $n:tt )*`) the tokens `f(n)`.
pub open spec fn instance_one(x: MatchV, f: spec_fn(Seq<char>) -> Seq<TokV>) -> Seq<TokV> {
    match x {
        MatchV::Token(t) => seq![t],
        MatchV::Var(n, k) => f(n),
        _ => seq![],
    }
}

/// `$( $n )*`: the repeated substitution of the capture `n`.
pub open spec fn rep_subst(n: Seq<char>) -> Seq<TokV> {
    seq![p('$'), TokV::Open(Delim::Paren), p('$'), id(n), TokV::Close(Delim::Paren), p('*')]
}

/// Whether `b` begins with a repeated substitution `$( $n )*`.
pub open spec fn starts_rep_subst(b: Seq<TokV>) -> bool {
    b.len() >= 6 && b[3] is Ident && b.subrange(0, 6) == rep_subst(b[3]->Ident_0)
}

/// The host engine's substitution in rewrite tokens: `$n`, and `$( $n )*`
/// for a capture repeated as `$( $n:tt )*`, become the tokens `f(n)`.
pub open spec fn substitute(b: Seq<TokV>, f: spec_fn(Seq<char>) -> Seq<TokV>) -> Seq<TokV>
    decreases b.len(),
{
    if b.len() == 0 {
        seq![]
    } else if starts_rep_subst(b) {
        f(b[3]->Ident_0) + substitute(b.subrange(6, b.len() as int), f)
    } else if b.len() >= 2 && b[0] == p('$') && b[1] is Ident {
        f(b[1]->Ident_0) + substitute(b.subrange(2, b.len() as int), f)
    } else {
        seq![b[0]] + substitute(b.subrange(1, b.len() as int), f)
    }
}

/// Every `$` of `b` starts a substitution that ends within `b`.
pub open spec fn closed_subst(b: Seq<TokV>) -> bool {
    forall|k: int|
        0 <= k < b.len() && #[trigger] b[k] == p('$') ==> (k + 1 < b.len() && b[k + 1] is Ident) || starts_rep_subst(
            b.subrange(k, b.len() as int),
        )
}

/// A matcher made of literal tokens other than `$`, groups and captures.
pub open spec fn plain_matcher(m: Seq<MatchV>) -> bool {
    forall|i: int|
        0 <= i < m.len() ==> (#[trigger] m[i] is Var || (m[i] is Token && m[i]->Token_0 != p('$')))
}

proof fn lemma_closed_suffix(a: Seq<TokV>, j: int)
    requires
        closed_subst(a),
        0 <= j <= a.len(),
    ensures
        closed_subst(a.subrange(j, a.len() as int)),
{
    let r = a.subrange(j, a.len() as int);
    assert forall|k: int| 0 <= k < r.len() && #[trigger] r[k] == p('$') implies (k + 1 < r.len() && r[k + 1] is Ident)
        || starts_rep_subst(r.subrange(k, r.len() as int)) by {
        assert(a[j + k] == r[k]);
        assert(a.subrange(j + k, a.len() as int) =~= r.subrange(k, r.len() as int));
        if k + 1 < r.len() {
            assert(a[j + k + 1] == r[k + 1]);
        }
    }
}

pub proof fn lemma_substitute_add(a: Seq<TokV>, b: Seq<TokV>, f: spec_fn(Seq<char>) -> Seq<TokV>)
    requires
        closed_subst(a),
    ensures
        substitute(a + b, f) == substitute(a, f) + substitute(b, f),
    decreases a.len(),
{
    let ab = a + b;
    if a.len() == 0 {
        assert(ab =~= b);
    } else if starts_rep_subst(a) {
        assert(ab.subrange(0, 6) =~= a.subrange(0, 6));
        assert(starts_rep_subst(ab));
        assert(ab.subrange(6, ab.len() as int) =~= a.subrange(6, a.len() as int) + b);
        lemma_closed_suffix(a, 6);
        lemma_substitute_add(a.subrange(6, a.len() as int), b, f);
    } else if a.len() >= 2 && a[0] == p('$') && a[1] is Ident {
        assert(!starts_rep_subst(ab));
        assert(ab.subrange(2, ab.len() as int) =~= a.subrange(2, a.len() as int) + b);
        lemma_closed_suffix(a, 2);
        lemma_substitute_add(a.subrange(2, a.len() as int), b, f);
    } else {
        if a[0] == p('$') {
            assert(a.subrange(0, a.len() as int) =~= a);
            assert((0int + 1 < a.len() && a[0int + 1] is Ident) || starts_rep_subst(a.subrange(0, a.len() as int)));
        }
        assert(!starts_rep_subst(ab));
        assert(ab.subrange(1, ab.len() as int) =~= a.subrange(1, a.len() as int) + b);
        lemma_closed_suffix(a, 1);
        lemma_substitute_add(a.subrange(1, a.len() as int), b, f);
    }
}

pub proof fn lemma_closed_cat(a: Seq<TokV>, b: Seq<TokV>)
    requires
        closed_subst(a),
        closed_subst(b),
    ensures
        closed_subst(a + b),
{
    let ab = a + b;
    assert forall|k: int| 0 <= k < ab.len() && #[trigger] ab[k] == p('$') implies (k + 1 < ab.len() && ab[k + 1] is Ident)
        || starts_rep_subst(ab.subrange(k, ab.len() as int)) by {
        if k < a.len() {
            assert(a[k] == ab[k]);
            if k + 1 < a.len() && a[k + 1] is Ident {
                assert(ab[k + 1] == a[k + 1]);
            } else {
                let sa = a.subrange(k, a.len() as int);
                let sab = ab.subrange(k, ab.len() as int);
                assert(starts_rep_subst(sa));
                assert(sab.subrange(0, 6) =~= sa.subrange(0, 6));
                assert(sab[3] == sa[3]);
            }
        } else {
            let j = k - a.len();
            assert(b[j] == ab[k]);
            if j + 1 < b.len() && b[j + 1] is Ident {
                assert(ab[k + 1] == b[j + 1]);
            } else {
                assert(ab.subrange(k, ab.len() as int) =~= b.subrange(j, b.len() as int));
            }
        }
    }
}

/// Substitution leaves tokens without `$` unchanged.
pub proof fn lemma_substitute_plain(a: Seq<TokV>, f: spec_fn(Seq<char>) -> Seq<TokV>)
    requires
        forall|k: int| 0 <= k < a.len() ==> #[trigger] a[k] != p('$'),
    ensures
        substitute(a, f) == a,
        closed_subst(a),
    decreases a.len(),
{
    if a.len() > 0 {
        assert(!starts_rep_subst(a));
        let r = a.subrange(1, a.len() as int);
        assert forall|k: int| 0 <= k < r.len() implies #[trigger] r[k] != p('$') by {
            assert(r[k] == a[k + 1]);
        }
        lemma_substitute_plain(r, f);
        assert(seq![a[0]] + r =~= a);
    }
}

/// The repeated substitution of `n` becomes `f(n)`.
pub proof fn lemma_substitute_rep(n: Seq<char>, f: spec_fn(Seq<char>) -> Seq<TokV>)
    ensures
        substitute(rep_subst(n), f) == f(n),
        closed_subst(rep_subst(n)),
{
    let b = rep_subst(n);
    assert(b.subrange(0, 6) =~= b);
    assert(b[3]->Ident_0 == n);
    assert(starts_rep_subst(b));
    assert(b.subrange(6, 6) =~= Seq::<TokV>::empty());
    assert(substitute(b.subrange(6, 6), f) == Seq::<TokV>::empty());
    assert(f(n) + Seq::<TokV>::empty() =~= f(n));
    assert forall|k: int| 0 <= k < b.len() && #[trigger] b[k] == p('$') implies (k + 1 < b.len() && b[k + 1] is Ident)
        || starts_rep_subst(b.subrange(k, b.len() as int)) by {
        if k == 0 {
            assert(b.subrange(0, b.len() as int) =~= b);
        }
    }
}

/// Round trip: for a pattern of literal tokens, groups and captures, the
/// reproduction of the pattern, with each capture substituted by what it
/// matched, is token for token the input that the pattern matched.
pub proof fn lemma_reproduce_round_trip(m: Seq<MatchV>, f: spec_fn(Seq<char>) -> Seq<TokV>)
    requires
        plain_matcher(m),
    ensures
        substitute(reproduce(m), f) == instance(m, f),
        closed_subst(reproduce(m)),
    decreases m.len(),
{
    if m.len() > 0 {
        let init = m.drop_last();
        let x = m.last();
        assert(plain_matcher(init)) by {
            assert forall|i: int| 0 <= i < init.len() implies (#[trigger] init[i] is Var || (init[i] is Token
                && init[i]->Token_0 != p('$'))) by {
                assert(init[i] == m[i]);
            }
        }
        assert(x == m[m.len() - 1]);
        lemma_reproduce_round_trip(init, f);
        lemma_substitute_add(reproduce(init), reproduce_one(x), f);
        let one = reproduce_one(x);
        match x {
            MatchV::Token(t) => {
                assert(!starts_rep_subst(one));
                assert(substitute(one.subrange(1, 1), f) =~= seq![]);
                assert(substitute(one, f) =~= seq![t]);
            },
            MatchV::Var(n, k) => {
                assert(!starts_rep_subst(one));
                assert(one.subrange(2, 2) =~= Seq::<TokV>::empty());
                assert(one[0] == p('$') && one[1] == id(n) && one.len() == 2);
                assert(substitute(one.subrange(2, 2), f) == Seq::<TokV>::empty());
                assert(substitute(one, f) == f(n) + substitute(one.subrange(2, 2), f));
                assert(substitute(one, f) =~= f(n));
            },
            _ => {},
        }
        assert(closed_subst(one)) by {
            assert forall|k: int| 0 <= k < one.len() && #[trigger] one[k] == p('$') implies (k + 1 < one.len()
                && one[k + 1] is Ident) || starts_rep_subst(one.subrange(k, one.len() as int)) by {}
        }
        lemma_closed_cat(reproduce(init), one);
    }
}

} // verus!

verus! {

pub open spec fn opens_group(x: MatchV) -> bool {
    (x is Token && x->Token_0 is Open) || x is RepOpen
}

pub open spec fn closes_group(x: MatchV) -> bool {
    (x is Token && x->Token_0 is Close) || x is RepClose
}

/// How far a matcher nests: groups and repetitions opened minus those closed.
pub open spec fn match_depth(m: Seq<MatchV>) -> int
    decreases m.len(),
{
    if m.len() == 0 {
        0
    } else {
        match_depth(m.drop_last()) + if opens_group(m.last()) {
            1int
        } else if closes_group(m.last()) {
            -1int
        } else {
            0int
        }
    }
}

/// A matcher of exactly one element: one token, one capture, or one group or
/// repetition that its last element closes.
pub open spec fn one_element(m: Seq<MatchV>) -> bool {
    ||| (m.len() == 1 && !opens_group(m[0]) && !closes_group(m[0]))
    ||| (m.len() >= 2 && opens_group(m[0]) && forall|k: int| 1 <= k < m.len() ==> match_depth(#[trigger] m.subrange(0, k)) > 0)
}

fn opens_exec(x: &MacroMatch) -> (r: bool)
    ensures
        r == opens_group(x@),
{
    match x {
        MacroMatch::Token(Tok::Open(_)) => true,
        MacroMatch::RepetitionOpen => true,
        _ => false,
    }
}

fn closes_exec(x: &MacroMatch) -> (r: bool)
    ensures
        r == closes_group(x@),
{
    match x {
        MacroMatch::Token(Tok::Close(_)) => true,
        MacroMatch::RepetitionClose(_) => true,
        _ => false,
    }
}

/// Whether a matcher is exactly one element.
pub fn is_one_element(m: &MacroMatcher) -> (r: bool)
    ensures
        r == one_element(m@),
{
    let n = m.matches.len();
    assert(m@.len() == n);
    if n == 1 {
        assert(m@[0] == m.matches@[0]@);
        return !opens_exec(&m.matches[0]) && !closes_exec(&m.matches[0]);
    }
    if n < 2 {
        return false;
    }
    assert(m@[0] == m.matches@[0]@);
    if !opens_exec(&m.matches[0]) {
        return false;
    }
    let mut level: usize = 1;
    let mut k: usize = 1;
    assert(m@.subrange(0, 1).drop_last() =~= Seq::<MatchV>::empty());
    assert(m@.subrange(0, 1).last() == m@[0]);
    assert(match_depth(Seq::<MatchV>::empty()) == 0);
    assert(match_depth(m@.subrange(0, 1)) == 1);
    while k < n
        invariant
            1 <= k <= n == m@.len(),
            n >= 2,
            opens_group(m@[0]),
            level as int == match_depth(m@.subrange(0, k as int)),
            level <= k,
            forall|q: int| 1 <= q < k ==> match_depth(#[trigger] m@.subrange(0, q)) > 0,
        decreases n - k,
    {
        if level == 0 {
            return false;
        }
        let ghost s = m@.subrange(0, k + 1);
        assert(s.drop_last() =~= m@.subrange(0, k as int));
        assert(s.last() == m.matches@[k as int]@);
        if opens_exec(&m.matches[k]) {
            level = level + 1;
        } else if closes_exec(&m.matches[k]) {
            level = level - 1;
        }
        k = k + 1;
    }
    true
}

} // verus!
