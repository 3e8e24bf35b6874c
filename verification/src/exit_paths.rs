//! Finding a `return` written inside a macro invocation in a test body.
//!
//! The budget attributes inject their assertion before every `return` of the
//! test, but cannot reach into the tokens of another macro's invocation; a
//! `return` written there is reported instead of being skipped silently.
use vstd::prelude::*;
use crate::text::str_eq;

verus! {

/// A token of a macro invocation. Identifiers carry a handle for their
/// source location.
#[derive(Debug)]
pub enum MacroToken {
    Ident(String, u64),
    /// A delimited group and the tokens inside it.
    Group(Vec<MacroToken>),
    Other,
}

/// The location handle of the first `return` identifier of `t`, searching
/// groups depth-first in source order.
pub open spec fn first_return_of(t: MacroToken) -> Option<u64>
    decreases t, 0int,
{
    match t {
        MacroToken::Ident(name, span) => if name@ == "return"@ {
            Some(span)
        } else {
            None
        },
        MacroToken::Group(inner) => first_return_from(inner@, 0),
        MacroToken::Other => None,
    }
}

/// The first `return` among `ts[i..]`.
pub open spec fn first_return_from(ts: Seq<MacroToken>, i: int) -> Option<u64>
    decreases ts, ts.len() - i,
{
    if i < 0 || i >= ts.len() {
        None
    } else {
        match first_return_of(ts[i]) {
            Some(span) => Some(span),
            None => first_return_from(ts, i + 1),
        }
    }
}

/// The first `return` identifier in `tokens`, looking inside groups, as
/// `find_return_token` of the budget attributes searches a macro's tokens.
pub fn find_return_token(tokens: &Vec<MacroToken>) -> (r: Option<u64>)
    ensures
        r == first_return_from(tokens@, 0),
    decreases tokens@,
{
    let mut i: usize = 0;
    while i < tokens.len()
        invariant
            i <= tokens@.len(),
            first_return_from(tokens@, 0) == first_return_from(tokens@, i as int),
        decreases tokens@.len() - i,
    {
        let found = match &tokens[i] {
            MacroToken::Ident(name, span) => {
                if str_eq(name.as_str(), "return") {
                    Some(*span)
                } else {
                    None
                }
            },
            MacroToken::Group(inner) => {
                assert(decreases_to!(tokens@ => tokens@[i as int]));
                find_return_token(inner)
            },
            MacroToken::Other => None,
        };
        assert(found == first_return_of(tokens@[i as int]));
        assert(first_return_from(tokens@, i as int) == match first_return_of(tokens@[i as int]) {
            Some(span) => Some(span),
            None => first_return_from(tokens@, i + 1),
        });
        if found.is_some() {
            return found;
        }
        i = i + 1;
    }
    None
}

/// What the last statement of a test body is.
#[derive(Debug, Clone, Copy, PartialEq, Eq, Structural)]
pub enum BodyEnd {
    /// An expression without a semicolon that is not a `return`: the value
    /// the test returns.
    TailExpr,
    /// A `return` expression without a semicolon.
    ReturnExpr,
    /// Any other statement.
    Statement,
}

/// How the assertion is placed in the test body.
#[derive(Debug, Clone, Copy, PartialEq, Eq, Structural)]
pub enum ExitLayout {
    /// A `return` sits inside a macro invocation: the test is emitted
    /// unchanged with an error at each such `return`.
    RejectMacroReturns,
    /// The tail expression is bound to a local, the assertion runs, and the
    /// local is returned.
    BindTail,
    /// The assertion is appended after the last statement.
    Append,
}

/// The layout for a body with `macro_returns` `return`s inside macro
/// invocations whose last statement is `last` (`None` for an empty body).
pub open spec fn exit_layout_of(macro_returns: nat, last: Option<BodyEnd>) -> ExitLayout {
    if macro_returns > 0 {
        ExitLayout::RejectMacroReturns
    } else if last == Some(BodyEnd::TailExpr) {
        ExitLayout::BindTail
    } else {
        ExitLayout::Append
    }
}

/// Chooses how the assertion is placed: refuse a body with a `return` inside
/// a macro invocation, bind a tail expression so that the assertion runs
/// before its value is returned, and otherwise append the assertion.
pub fn exit_layout(macro_returns: usize, last: Option<BodyEnd>) -> (r: ExitLayout)
    ensures
        r == exit_layout_of(macro_returns as nat, last),
{
    if macro_returns > 0 {
        ExitLayout::RejectMacroReturns
    } else {
        match last {
            Some(BodyEnd::TailExpr) => ExitLayout::BindTail,
            _ => ExitLayout::Append,
        }
    }
}

} // verus!
