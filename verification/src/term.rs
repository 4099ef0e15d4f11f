//! The core language: the term syntax that the kernel consumes.
//!
//! Terms are immutable trees; subterms are shared through reference counting
//! so that evaluation and read-back never deep-copy. Universe levels, universe
//! offsets, de Bruijn indices and de Bruijn levels are all plain `usize`
//! values; the invariant `index + level == size - 1` converts between indices
//! (counted from the innermost binder) and levels (counted from the
//! outermost).

use std::rc::Rc;
use vstd::prelude::*;

use crate::constant::Constant;
use crate::constant::SpecConstant;

verus! {

/// Share a reference-counted node.
///
/// Relies on `Rc::clone`, which hands back a new handle to the same
/// allocation, so the result is the same value as the argument.
#[verifier::external_body]
pub fn rc_dup<T>(rc: &Rc<T>) -> (r: Rc<T>)
    ensures
        r == *rc,
{
    Rc::clone(rc)
}

/// A term of the core language.
#[derive(Debug, PartialEq, Eq)]
pub enum Term {
    /// Free reference to a global binding.
    Global(String),
    /// Bound variable, as a de Bruijn index (0 is the innermost binder).
    Local(usize),
    /// Type annotation; evaluation drops the annotation.
    Ann(Rc<Term>, Rc<Term>),
    /// The type of types at the given universe level.
    TypeType(usize),
    /// Evaluate the inner term with the universe offset incremented.
    Lift(Rc<Term>, usize),
    /// Dependent function type; the name is a display hint only.
    FunctionType(Option<String>, Rc<Term>, Rc<Term>),
    /// Function abstraction; the name is a display hint only.
    FunctionTerm(String, Rc<Term>),
    /// Function application.
    FunctionElim(Rc<Term>, Rc<Term>),
    /// Dependent record type; later fields may depend on earlier ones.
    RecordType(Vec<(String, Rc<Term>)>),
    /// Record introduction.
    RecordTerm(Vec<(String, Rc<Term>)>),
    /// Record field projection.
    RecordElim(Rc<Term>, String),
    /// Ordered sequence literal.
    Sequence(Vec<Rc<Term>>),
    /// Primitive constant.
    Constant(Constant),
    /// Error sentinel, injected on client errors; it propagates silently.
    Error,
}

/// The mathematical mirror of [`Term`].
pub ghost enum SpecTerm {
    Global(Seq<char>),
    Local(nat),
    Ann(Box<SpecTerm>, Box<SpecTerm>),
    TypeType(nat),
    Lift(Box<SpecTerm>, nat),
    FunctionType(Option<Seq<char>>, Box<SpecTerm>, Box<SpecTerm>),
    FunctionTerm(Seq<char>, Box<SpecTerm>),
    FunctionElim(Box<SpecTerm>, Box<SpecTerm>),
    RecordType(Seq<(Seq<char>, SpecTerm)>),
    RecordTerm(Seq<(Seq<char>, SpecTerm)>),
    RecordElim(Box<SpecTerm>, Seq<char>),
    Sequence(Seq<SpecTerm>),
    Constant(SpecConstant),
    Error,
}

/// The mirror of an optional display hint.
pub open spec fn opt_name_view(n: Option<String>) -> Option<Seq<char>> {
    match n {
        Option::Some(s) => Option::Some(s@),
        Option::None => Option::None,
    }
}

/// The mirror of a list of labelled entries.
pub open spec fn entries_view(s: Seq<(String, Rc<Term>)>) -> Seq<(Seq<char>, SpecTerm)>
    decreases s,
{
    if s.len() == 0 {
        Seq::empty()
    } else {
        entries_view(s.drop_last()).push((s.last().0@, term_view(*s.last().1)))
    }
}

/// The mirror of a list of subterms.
pub open spec fn terms_view(s: Seq<Rc<Term>>) -> Seq<SpecTerm>
    decreases s,
{
    if s.len() == 0 {
        Seq::empty()
    } else {
        terms_view(s.drop_last()).push(term_view(*s.last()))
    }
}

/// The mirror of a single term.
pub open spec fn term_view(t: Term) -> SpecTerm
    decreases t,
{
    match t {
        Term::Global(n) => SpecTerm::Global(n@),
        Term::Local(i) => SpecTerm::Local(i as nat),
        Term::Ann(t, a) => SpecTerm::Ann(Box::new(term_view(*t)), Box::new(term_view(*a))),
        Term::TypeType(l) => SpecTerm::TypeType(l as nat),
        Term::Lift(t, k) => SpecTerm::Lift(Box::new(term_view(*t)), k as nat),
        Term::FunctionType(n, i, o) => SpecTerm::FunctionType(
            opt_name_view(n),
            Box::new(term_view(*i)),
            Box::new(term_view(*o)),
        ),
        Term::FunctionTerm(n, b) => SpecTerm::FunctionTerm(n@, Box::new(term_view(*b))),
        Term::FunctionElim(h, a) => SpecTerm::FunctionElim(
            Box::new(term_view(*h)),
            Box::new(term_view(*a)),
        ),
        Term::RecordType(es) => SpecTerm::RecordType(entries_view(es@)),
        Term::RecordTerm(es) => SpecTerm::RecordTerm(entries_view(es@)),
        Term::RecordElim(h, l) => SpecTerm::RecordElim(Box::new(term_view(*h)), l@),
        Term::Sequence(ts) => SpecTerm::Sequence(terms_view(ts@)),
        Term::Constant(c) => SpecTerm::Constant(c@),
        Term::Error => SpecTerm::Error,
    }
}

impl View for Term {
    type V = SpecTerm;

    open spec fn view(&self) -> SpecTerm {
        term_view(*self)
    }
}

/// The length of a mirrored entry list equals the length of the original, and
/// each element is the mirror of the original element.
pub proof fn lemma_entries_view(s: Seq<(String, Rc<Term>)>)
    ensures
        entries_view(s).len() == s.len(),
        forall|i: int|
            0 <= i < s.len() ==> #[trigger] entries_view(s)[i] == (s[i].0@, term_view(*s[i].1)),
    decreases s,
{
    if s.len() > 0 {
        lemma_entries_view(s.drop_last());
    }
}

/// The length of a mirrored term list equals the length of the original, and
/// each element is the mirror of the original element.
pub proof fn lemma_terms_view(s: Seq<Rc<Term>>)
    ensures
        terms_view(s).len() == s.len(),
        forall|i: int| 0 <= i < s.len() ==> #[trigger] terms_view(s)[i] == term_view(*s[i]),
    decreases s,
{
    if s.len() > 0 {
        lemma_terms_view(s.drop_last());
    }
}

/// Share a list of labelled entries.
pub fn dup_entries(s: &Vec<(String, Rc<Term>)>) -> (r: Vec<(String, Rc<Term>)>)
    ensures
        entries_view(r@) == entries_view(s@),
{
    let mut out: Vec<(String, Rc<Term>)> = Vec::new();
    let mut i: usize = 0;
    proof {
        lemma_entries_view(s@);
    }
    while i < s.len()
        invariant
            i <= s.len(),
            out@.len() == i,
            entries_view(s@).len() == s@.len(),
            forall|j: int|
                0 <= j < s@.len() ==> #[trigger] entries_view(s@)[j] == (
                    s@[j].0@,
                    term_view(*s@[j].1),
                ),
            forall|j: int|
                0 <= j < i ==> #[trigger] out@[j].0@ == s@[j].0@ && term_view(*out@[j].1)
                    == term_view(*s@[j].1),
        decreases s.len() - i,
    {
        let e = (s[i].0.clone(), rc_dup(&s[i].1));
        out.push(e);
        i = i + 1;
    }
    proof {
        lemma_entries_view(out@);
        assert(entries_view(out@) =~= entries_view(s@));
    }
    out
}

} // verus!
