//! Precedence levels of the surface printer.

use vstd::prelude::*;

verus! {

/// The precedence of a surface term, loosest first: whole terms, annotated
/// expressions, arrow types, applications, atomic terms.
#[derive(Clone, Copy, Debug, PartialEq, Eq)]
pub enum Prec {
    Term,
    Expr,
    Arrow,
    App,
    Atomic,
}

/// The numeric rank of a precedence level.
pub open spec fn spec_prec_rank(p: Prec) -> nat {
    match p {
        Prec::Term => 0,
        Prec::Expr => 1,
        Prec::Arrow => 2,
        Prec::App => 3,
        Prec::Atomic => 4,
    }
}

impl Prec {
    /// The numeric rank of this level; a higher rank binds tighter.
    pub fn rank(&self) -> (r: u8)
        ensures
            r as nat == spec_prec_rank(*self),
    {
        match self {
            Prec::Term => 0,
            Prec::Expr => 1,
            Prec::Arrow => 2,
            Prec::App => 3,
            Prec::Atomic => 4,
        }
    }

    /// Whether this level binds at least as tightly as another: the test a
    /// printer makes before adding parentheses.
    pub fn binds_tighter_or_equal(&self, other: &Prec) -> (r: bool)
        ensures
            r == (spec_prec_rank(*self) >= spec_prec_rank(*other)),
    {
        self.rank() >= other.rank()
    }
}

} // verus!
