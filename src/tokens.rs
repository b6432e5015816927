use vstd::prelude::*;

verus! {

/// The identifier of the reserved marker `@_cps` that opens every protocol invocation.
pub open spec fn marker_name() -> Seq<char> {
    seq!['_', 'c', 'p', 's']
}

pub fn marker() -> (r: &'static str)
    ensures
        r@ == marker_name(),
{
    proof {
        reveal_strlit("_cps");
    }
    let r = "_cps";
    assert(r@ =~= marker_name());
    r
}

/// The delimiter of a token group.
#[derive(Clone, Copy, PartialEq, Eq, Debug, Structural)]
pub enum Delim {
    Paren,
    Brace,
    Bracket,
    /// A group without delimiters, as the host makes around a substituted
    /// expression to keep its precedence.
    Invisible,
}

/// One token of the flat token model. A delimited group is written as an
/// `Open` token, the group's contents, and the matching `Close` token.
/// A punctuation character carries whether it is joined to the next one.
#[derive(Clone, Debug, PartialEq, Eq)]
pub enum Tok {
    Ident(String),
    Punct(char, bool),
    Lit(String),
    Open(Delim),
    Close(Delim),
}

/// The mathematical value of a token.
pub enum TokV {
    Ident(Seq<char>),
    Punct(char, bool),
    Lit(Seq<char>),
    Open(Delim),
    Close(Delim),
}

impl View for Tok {
    type V = TokV;

    open spec fn view(&self) -> TokV {
        match self {
            Tok::Ident(s) => TokV::Ident(s@),
            Tok::Punct(c, j) => TokV::Punct(*c, *j),
            Tok::Lit(s) => TokV::Lit(s@),
            Tok::Open(d) => TokV::Open(*d),
            Tok::Close(d) => TokV::Close(*d),
        }
    }
}

pub open spec fn tok_views(s: Seq<Tok>) -> Seq<TokV> {
    s.map_values(|t: Tok| t@)
}

/// A punctuation token that is not joined to the next one.
pub open spec fn p(c: char) -> TokV {
    TokV::Punct(c, false)
}

/// A punctuation token joined to the next one (the first half of `=>` or `::`).
pub open spec fn pj(c: char) -> TokV {
    TokV::Punct(c, true)
}

pub open spec fn id(s: Seq<char>) -> TokV {
    TokV::Ident(s)
}

/// Whether a token is the punctuation character `c`, whatever its spacing.
pub open spec fn is_punct(t: TokV, c: char) -> bool {
    match t {
        TokV::Punct(d, _) => d == c,
        _ => false,
    }
}

impl Tok {
    pub fn duplicate(&self) -> (r: Tok)
        ensures
            r@ == self@,
    {
        match self {
            Tok::Ident(s) => Tok::Ident(s.clone()),
            Tok::Punct(c, j) => Tok::Punct(*c, *j),
            Tok::Lit(s) => Tok::Lit(s.clone()),
            Tok::Open(d) => Tok::Open(*d),
            Tok::Close(d) => Tok::Close(*d),
        }
    }

    pub fn same(&self, o: &Tok) -> (r: bool)
        ensures
            r == (self@ == o@),
    {
        match (self, o) {
            (Tok::Ident(a), Tok::Ident(b)) => *a == *b,
            (Tok::Punct(a, x), Tok::Punct(b, y)) => *a == *b && *x == *y,
            (Tok::Lit(a), Tok::Lit(b)) => *a == *b,
            (Tok::Open(a), Tok::Open(b)) => *a == *b,
            (Tok::Close(a), Tok::Close(b)) => *a == *b,
            _ => false,
        }
    }

    pub fn is_punct_char(&self, c: char) -> (r: bool)
        ensures
            r == is_punct(self@, c),
    {
        match self {
            Tok::Punct(d, _) => *d == c,
            _ => false,
        }
    }

    pub fn is_ident_str(&self, s: &str) -> (r: bool)
        ensures
            r == (self@ == TokV::Ident(s@)),
    {
        match self {
            Tok::Ident(a) => *a == s.to_string(),
            _ => false,
        }
    }

    pub fn alone(c: char) -> (r: Tok)
        ensures
            r@ == p(c),
    {
        Tok::Punct(c, false)
    }

    pub fn joint(c: char) -> (r: Tok)
        ensures
            r@ == pj(c),
    {
        Tok::Punct(c, true)
    }

    pub fn ident(s: &str) -> (r: Tok)
        ensures
            r@ == TokV::Ident(s@),
    {
        Tok::Ident(s.to_string())
    }
}

/// A sequence of tokens.
#[derive(Clone, Debug)]
pub struct Tokens {
    pub toks: Vec<Tok>,
}

impl View for Tokens {
    type V = Seq<TokV>;

    open spec fn view(&self) -> Seq<TokV> {
        tok_views(self.toks@)
    }
}

impl Tokens {
    pub fn new() -> (r: Tokens)
        ensures
            r@ == Seq::<TokV>::empty(),
    {
        let r = Tokens { toks: Vec::new() };
        assert(r@ =~= Seq::<TokV>::empty());
        r
    }

    pub fn from_vec(toks: Vec<Tok>) -> (r: Tokens)
        ensures
            r@ == tok_views(toks@),
    {
        Tokens { toks }
    }

    pub fn len(&self) -> (r: usize)
        ensures
            r == self@.len(),
    {
        self.toks.len()
    }

    pub fn get(&self, i: usize) -> (r: &Tok)
        requires
            i < self@.len(),
        ensures
            r@ == self@[i as int],
    {
        &self.toks[i]
    }

    pub fn push(&mut self, t: Tok)
        ensures
            final(self)@ == old(self)@.push(t@),
    {
        self.toks.push(t);
        assert(final(self)@ =~= old(self)@.push(t@));
    }

    pub fn push_alone(&mut self, c: char)
        ensures
            final(self)@ == old(self)@.push(p(c)),
    {
        self.push(Tok::alone(c));
    }

    pub fn push_ident(&mut self, s: &str)
        ensures
            final(self)@ == old(self)@.push(TokV::Ident(s@)),
    {
        self.push(Tok::ident(s));
    }

    /// Appends the tokens `o[lo..hi]`.
    pub fn extend_range(&mut self, o: &Tokens, lo: usize, hi: usize)
        requires
            lo <= hi <= o@.len(),
        ensures
            final(self)@ == old(self)@ + o@.subrange(lo as int, hi as int),
    {
        let mut i = lo;
        while i < hi
            invariant
                lo <= i <= hi <= o@.len(),
                self@ == old(self)@ + o@.subrange(lo as int, i as int),
            decreases hi - i,
        {
            let t = o.get(i).duplicate();
            self.push(t);
            assert(o@.subrange(lo as int, i + 1) =~= o@.subrange(lo as int, i as int).push(o@[i as int]));
            i = i + 1;
        }
    }

    pub fn extend(&mut self, o: &Tokens)
        ensures
            final(self)@ == old(self)@ + o@,
    {
        self.extend_range(o, 0, o.len());
        assert(o@.subrange(0, o@.len() as int) =~= o@);
    }

    pub fn slice(&self, lo: usize, hi: usize) -> (r: Tokens)
        requires
            lo <= hi <= self@.len(),
        ensures
            r@ == self@.subrange(lo as int, hi as int),
    {
        let mut r = Tokens::new();
        r.extend_range(self, lo, hi);
        assert(r@ =~= self@.subrange(lo as int, hi as int));
        r
    }

    pub fn duplicate(&self) -> (r: Tokens)
        ensures
            r@ == self@,
    {
        let r = self.slice(0, self.len());
        assert(self@.subrange(0, self@.len() as int) =~= self@);
        r
    }

    pub fn same(&self, o: &Tokens) -> (r: bool)
        ensures
            r == (self@ == o@),
    {
        if self.len() != o.len() {
            return false;
        }
        let mut i: usize = 0;
        while i < self.len()
            invariant
                self@.len() == o@.len(),
                i <= self@.len(),
                forall|j: int| 0 <= j < i ==> self@[j] == o@[j],
            decreases self@.len() - i,
        {
            if !self.get(i).same(o.get(i)) {
                return false;
            }
            i = i + 1;
        }
        assert(self@ =~= o@);
        true
    }
}

} // verus!
