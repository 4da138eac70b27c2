//! The syntax tree and its recursive-descent parser.
//!
//! The modules hold the tree that the parser builds. The types of this
//! file are an earlier shape of the grammar, in which every level of
//! binding has a type of its own: a first operand, and the operands after
//! it with the operator before each.

use crate::scanner::Token;
use vstd::prelude::*;

pub mod decl;
pub mod expresions;
pub mod parser;
pub mod precedence;
pub mod statments;

verus! {

/// The name of a type: an identifier.
pub type Type = Token;

/// A pattern: a type, a variant for an enum, and what its fields are
/// matched with.
pub struct Pattern {
    pub type_of: Type,
    pub varient: Option<Token>,
    pub fields: Vec<(Token, PatternType)>,
}

/// What a field of a pattern is matched with: a pattern, a variable that
/// takes its value, or a constant.
pub enum PatternType {
    SubPattern(Box<Pattern>),
    Var(Token),
    Constant(Token),
}

/// The type of a function: its name, its parameters and its result.
pub struct FunctionType {
    pub name: Token,
    pub params: Vec<(Token, Type)>,
    pub out: Type,
}

/// `==` or `!=`.
pub enum EqualityType {
    Eq,
    Neq,
}

/// `>`, `>=`, `<` or `<=`.
pub enum ComparisonType {
    Great,
    GreaterOrEqual,
    Less,
    LessOrEqual,
}

/// `+` or `-`.
pub enum TermType {
    Add,
    Subtract,
}

/// `*` or `/`.
pub enum FactorType {
    Mult,
    Div,
}

/// `!` or `-` before an operand.
pub enum UnaryType {
    Not,
    Negative,
}

/// A first item, and the items after it, each with what joins it to the
/// one before.
pub struct OneOrMoreWith<T, U> {
    pub first: T,
    pub rest: Vec<(T, U)>,
}

/// A first item, and the items after it.
pub struct OneOrMore<T> {
    pub first: T,
    pub rest: Vec<T>,
}

/// The items of `s` in the opposite order.
fn turned<A>(s: Vec<A>) -> (r: Vec<A>)
    ensures
        r@ == s@.reverse(),
{
    let ghost all = s@;
    let mut s = s;
    let mut out: Vec<A> = Vec::new();
    while s.len() > 0
        invariant
            s.len() + out.len() == all.len(),
            s@ == all.subrange(0, s.len() as int),
            forall|k: int| 0 <= k < out.len() ==> #[trigger] out[k] == all[all.len() - 1 - k],
        decreases s.len(),
    {
        let ghost done = out@;
        let ghost at = s.len() - 1;
        let item = s.pop().unwrap();
        assert(s@ =~= all.subrange(0, at));
        out.push(item);
        assert forall|k: int| 0 <= k < out.len() implies #[trigger] out[k] == all[all.len() - 1
            - k] by {
            if k < done.len() {
                assert(out[k] == done[k]);
            }
        }
    }
    assert(out@ =~= all.reverse());
    out
}

impl<T, U> OneOrMoreWith<T, U> {
    /// All items in order, each with what joins it to the one before; the
    /// first has nothing before it.
    pub fn into(self) -> (r: Vec<(T, Option<U>)>)
        ensures
            r.len() == self.rest.len() + 1,
            r[0] == (self.first, None::<U>),
            forall|i: int|
                0 <= i < self.rest.len() ==> #[trigger] r[i + 1] == (
                    self.rest[i].0,
                    Some(self.rest[i].1),
                ),
    {
        let ghost rest = self.rest@;
        let OneOrMoreWith { first, rest: items } = self;
        let mut backwards = turned(items);
        let mut res: Vec<(T, Option<U>)> = Vec::new();
        res.push((first, None));
        while backwards.len() > 0
            invariant
                backwards.len() + res.len() == rest.len() + 1,
                res.len() >= 1,
                forall|k: int|
                    0 <= k < backwards.len() ==> #[trigger] backwards[k] == rest[rest.len() - 1
                        - k],
                res[0] == (first, None::<U>),
                forall|i: int|
                    0 <= i < res.len() - 1 ==> #[trigger] res[i + 1] == (
                        rest[i].0,
                        Some(rest[i].1),
                    ),
            decreases backwards.len(),
        {
            let ghost done = res@;
            let ghost left = backwards@;
            let (t, u) = backwards.pop().unwrap();
            res.push((t, Some(u)));
            assert forall|k: int| 0 <= k < backwards.len() implies #[trigger] backwards[k]
                == rest[rest.len() - 1 - k] by {
                assert(backwards[k] == left[k]);
            }
            assert forall|i: int| 0 <= i < res.len() - 1 implies #[trigger] res[i + 1] == (
                rest[i].0,
                Some(rest[i].1),
            ) by {
                if i + 1 < done.len() {
                    assert(res[i + 1] == done[i + 1]);
                } else {
                    assert(left[left.len() - 1] == rest[rest.len() - 1 - (left.len() - 1)]);
                }
            }
        }
        res
    }
}

impl<T> OneOrMore<T> {
    /// All items in order.
    pub fn into(self) -> (r: Vec<T>)
        ensures
            r@ == seq![self.first] + self.rest@,
    {
        let OneOrMore { first, rest } = self;
        let mut rest = rest;
        let ghost before = rest@;
        rest.insert(0, first);
        assert(rest@ =~= seq![first] + before);
        rest
    }
}

} // verus!
