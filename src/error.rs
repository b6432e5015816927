use vstd::prelude::*;

verus! {

/// Why a rule set could not be compiled, or a protocol invocation could not be decoded.
#[derive(Clone, Copy, PartialEq, Eq, Debug, Structural)]
pub enum CpsError {
    /// A group is closed that was never opened, or one is never closed.
    Unbalanced,
    /// A capture `$name` is not followed by `:kind`.
    MissingFragmentKind,
    /// A repetition `$( .. )` is not followed by `*`, `+` or `?` (after an optional separator).
    MissingRepetitionOperator,
    /// A rule's pattern begins with the reserved marker `@_cps`.
    ReservedMarker,
    /// A delimited group was expected.
    ExpectedGroup,
    /// `=>` was expected after a rule's pattern.
    ExpectedFatArrow,
    /// A `let pattern = path!(args) in` clause is malformed.
    MalformedLet,
    /// Rules must be separated by `;`.
    ExpectedSemicolon,
    /// The item is not a `macro_rules! name { .. }` definition.
    NotMacroRules,
    /// A protocol invocation begins with `@` and an identifier other than the
    /// reserved marker `_cps`; the identifier received is the invocation's
    /// second token.
    WrongMarker,
    /// A protocol invocation is not in the expected shape.
    MalformedProtocol,
    /// The frame a leaf computation reads does not hold exactly one argument.
    ArgumentCount,
    /// The computation finished while results were still on the data stack.
    StackNotEmpty,
    /// A leaf computation was handed something it cannot read.
    BadLeafInput,
}

} // verus!
