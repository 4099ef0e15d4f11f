//! α-equivalence: terms and values that differ only in bound-name hints.
//!
//! The kernel is nameless: binders are de Bruijn indices, and the names
//! stored on function types and abstractions are display hints only. Two
//! terms that differ only in those hints evaluate to values that differ
//! only in hints, and such values are never told apart by the conversion
//! checker. This module defines the equivalence and proves both facts.

use vstd::prelude::*;

use crate::conv::spec_head_eq;
use crate::conv::spec_is_equal;
use crate::conv::spec_is_equal_record;
use crate::conv::spec_is_equal_spine;
use crate::conv::spec_is_equal_stuck;
use crate::conv::spec_is_equal_values;
use crate::semantics::level_bound;
use crate::semantics::spec_apply_function;
use crate::semantics::spec_apply_record;
use crate::semantics::spec_eval;
use crate::semantics::spec_eval_sequence;
use crate::semantics::spec_force;
use crate::semantics::spec_record_project;
use crate::value::SpecGlobals;
use crate::value::spec_globals_get;
use crate::term::SpecTerm;
use crate::value::SpecClosure;
use crate::value::SpecElim;
use crate::value::SpecHead;
use crate::value::SpecLazy;
use crate::value::SpecRecordClosure;
use crate::value::SpecValue;

verus! {

/// Two terms that differ at most in binder name hints.
pub open spec fn alpha_term(t0: SpecTerm, t1: SpecTerm) -> bool
    decreases t0,
{
    match (t0, t1) {
        (SpecTerm::Global(n0), SpecTerm::Global(n1)) => n0 == n1,
        (SpecTerm::Local(i0), SpecTerm::Local(i1)) => i0 == i1,
        (SpecTerm::Ann(a0, b0), SpecTerm::Ann(a1, b1)) => alpha_term(*a0, *a1) && alpha_term(
            *b0,
            *b1,
        ),
        (SpecTerm::TypeType(l0), SpecTerm::TypeType(l1)) => l0 == l1,
        (SpecTerm::Lift(a0, k0), SpecTerm::Lift(a1, k1)) => k0 == k1 && alpha_term(*a0, *a1),
        (SpecTerm::FunctionType(_h0, i0, o0), SpecTerm::FunctionType(_h1, i1, o1)) => alpha_term(
            *i0,
            *i1,
        ) && alpha_term(*o0, *o1),
        (SpecTerm::FunctionTerm(_n0, b0), SpecTerm::FunctionTerm(_n1, b1)) => alpha_term(
            *b0,
            *b1,
        ),
        (SpecTerm::FunctionElim(h0, a0), SpecTerm::FunctionElim(h1, a1)) => alpha_term(*h0, *h1)
            && alpha_term(*a0, *a1),
        (SpecTerm::RecordType(es0), SpecTerm::RecordType(es1)) => alpha_entries(es0, es1),
        (SpecTerm::RecordTerm(es0), SpecTerm::RecordTerm(es1)) => alpha_entries(es0, es1),
        (SpecTerm::RecordElim(h0, l0), SpecTerm::RecordElim(h1, l1)) => l0 == l1 && alpha_term(
            *h0,
            *h1,
        ),
        (SpecTerm::Sequence(ts0), SpecTerm::Sequence(ts1)) => alpha_terms(ts0, ts1),
        (SpecTerm::Constant(c0), SpecTerm::Constant(c1)) => c0 == c1,
        (SpecTerm::Error, SpecTerm::Error) => true,
        _ => false,
    }
}

/// Entry lists of equal length with equal labels and α-equivalent bodies.
pub open spec fn alpha_entries(
    s0: Seq<(Seq<char>, SpecTerm)>,
    s1: Seq<(Seq<char>, SpecTerm)>,
) -> bool
    decreases s0,
{
    if s0.len() != s1.len() {
        false
    } else if s0.len() == 0 {
        true
    } else {
        s0.last().0 == s1.last().0 && alpha_term(s0.last().1, s1.last().1) && alpha_entries(
            s0.drop_last(),
            s1.drop_last(),
        )
    }
}

/// Term lists of equal length, pointwise α-equivalent.
pub open spec fn alpha_terms(s0: Seq<SpecTerm>, s1: Seq<SpecTerm>) -> bool
    decreases s0,
{
    if s0.len() != s1.len() {
        false
    } else if s0.len() == 0 {
        true
    } else {
        alpha_term(s0.last(), s1.last()) && alpha_terms(s0.drop_last(), s1.drop_last())
    }
}

/// Two values that differ at most in binder name hints.
pub open spec fn alpha_value(v0: SpecValue, v1: SpecValue) -> bool
    decreases v0,
{
    match (v0, v1) {
        (SpecValue::Stuck(h0, sp0), SpecValue::Stuck(h1, sp1)) => h0 == h1 && alpha_spine(
            sp0,
            sp1,
        ),
        (SpecValue::Unstuck(h0, sp0, l0), SpecValue::Unstuck(h1, sp1, l1)) => h0 == h1
            && alpha_spine(sp0, sp1) && alpha_lazy(*l0, *l1),
        (SpecValue::TypeType(l0), SpecValue::TypeType(l1)) => l0 == l1,
        (SpecValue::FunctionType(_h0, i0, c0), SpecValue::FunctionType(_h1, i1, c1)) =>
            alpha_value(*i0, *i1) && alpha_closure(c0, c1),
        (SpecValue::FunctionTerm(_n0, c0), SpecValue::FunctionTerm(_n1, c1)) => alpha_closure(
            c0,
            c1,
        ),
        (SpecValue::RecordType(rc0), SpecValue::RecordType(rc1)) => alpha_record_closure(
            rc0,
            rc1,
        ),
        (SpecValue::RecordTerm(rc0), SpecValue::RecordTerm(rc1)) => alpha_record_closure(
            rc0,
            rc1,
        ),
        (SpecValue::Sequence(vs0), SpecValue::Sequence(vs1)) => alpha_values(vs0, vs1),
        (SpecValue::Constant(c0), SpecValue::Constant(c1)) => c0 == c1,
        (SpecValue::Error, SpecValue::Error) => true,
        _ => false,
    }
}

/// Value lists of equal length, pointwise α-equivalent.
pub open spec fn alpha_values(s0: Seq<SpecValue>, s1: Seq<SpecValue>) -> bool
    decreases s0,
{
    if s0.len() != s1.len() {
        false
    } else if s0.len() == 0 {
        true
    } else {
        alpha_value(s0.last(), s1.last()) && alpha_values(s0.drop_last(), s1.drop_last())
    }
}

/// Spines of equal length, pointwise α-equivalent.
pub open spec fn alpha_spine(s0: Seq<SpecElim>, s1: Seq<SpecElim>) -> bool
    decreases s0,
{
    if s0.len() != s1.len() {
        false
    } else if s0.len() == 0 {
        true
    } else {
        alpha_elim(s0.last(), s1.last()) && alpha_spine(s0.drop_last(), s1.drop_last())
    }
}

/// α-equivalence of eliminators.
pub open spec fn alpha_elim(e0: SpecElim, e1: SpecElim) -> bool
    decreases e0,
{
    match (e0, e1) {
        (SpecElim::Function(l0), SpecElim::Function(l1)) => alpha_lazy(*l0, *l1),
        (SpecElim::Record(a), SpecElim::Record(b)) => a == b,
        _ => false,
    }
}

/// α-equivalence of suspended computations.
pub open spec fn alpha_lazy(l0: SpecLazy, l1: SpecLazy) -> bool
    decreases l0,
{
    match (l0, l1) {
        (SpecLazy::Done(v0), SpecLazy::Done(v1)) => alpha_value(*v0, *v1),
        (SpecLazy::EvalTerm(o0, e0, t0), SpecLazy::EvalTerm(o1, e1, t1)) => o0 == o1
            && alpha_values(e0, e1) && alpha_term(*t0, *t1),
        (SpecLazy::ApplyElim(i0, el0), SpecLazy::ApplyElim(i1, el1)) => alpha_lazy(*i0, *i1)
            && alpha_elim(*el0, *el1),
        _ => false,
    }
}

/// α-equivalence of function closures: equal offsets, α-equivalent
/// captured environments and bodies.
pub open spec fn alpha_closure(c0: SpecClosure, c1: SpecClosure) -> bool
    decreases c0,
{
    c0.universe_offset == c1.universe_offset && alpha_values(c0.locals, c1.locals) && alpha_term(
        c0.term,
        c1.term,
    )
}

/// α-equivalence of record closures.
pub open spec fn alpha_record_closure(rc0: SpecRecordClosure, rc1: SpecRecordClosure) -> bool
    decreases rc0,
{
    rc0.universe_offset == rc1.universe_offset && alpha_values(rc0.locals, rc1.locals)
        && alpha_entries(rc0.entries, rc1.entries)
}

// --- Reflexivity -----------------------------------------------------------

/// Every term is α-equivalent to itself.
pub proof fn lemma_alpha_term_refl(t: SpecTerm)
    ensures
        alpha_term(t, t),
    decreases t,
{
    match t {
        SpecTerm::Ann(a, b) => {
            lemma_alpha_term_refl(*a);
            lemma_alpha_term_refl(*b);
        },
        SpecTerm::Lift(a, _k) => {
            lemma_alpha_term_refl(*a);
        },
        SpecTerm::FunctionType(_h, i, o) => {
            lemma_alpha_term_refl(*i);
            lemma_alpha_term_refl(*o);
        },
        SpecTerm::FunctionTerm(_n, b) => {
            lemma_alpha_term_refl(*b);
        },
        SpecTerm::FunctionElim(h, a) => {
            lemma_alpha_term_refl(*h);
            lemma_alpha_term_refl(*a);
        },
        SpecTerm::RecordType(es) => {
            lemma_alpha_entries_refl(es);
        },
        SpecTerm::RecordTerm(es) => {
            lemma_alpha_entries_refl(es);
        },
        SpecTerm::RecordElim(h, _l) => {
            lemma_alpha_term_refl(*h);
        },
        SpecTerm::Sequence(ts) => {
            lemma_alpha_terms_refl(ts);
        },
        _ => {},
    }
}

/// Every entry list is α-equivalent to itself.
pub proof fn lemma_alpha_entries_refl(s: Seq<(Seq<char>, SpecTerm)>)
    ensures
        alpha_entries(s, s),
    decreases s,
{
    if s.len() > 0 {
        lemma_alpha_term_refl(s.last().1);
        lemma_alpha_entries_refl(s.drop_last());
    }
}

/// Every term list is α-equivalent to itself.
pub proof fn lemma_alpha_terms_refl(s: Seq<SpecTerm>)
    ensures
        alpha_terms(s, s),
    decreases s,
{
    if s.len() > 0 {
        lemma_alpha_term_refl(s.last());
        lemma_alpha_terms_refl(s.drop_last());
    }
}

/// Every value is α-equivalent to itself.
pub proof fn lemma_alpha_value_refl(v: SpecValue)
    ensures
        alpha_value(v, v),
    decreases v,
{
    match v {
        SpecValue::Stuck(_h, sp) => {
            lemma_alpha_spine_refl(sp);
        },
        SpecValue::Unstuck(_h, sp, lz) => {
            lemma_alpha_spine_refl(sp);
            lemma_alpha_lazy_refl(*lz);
        },
        SpecValue::FunctionType(_h, i, c) => {
            lemma_alpha_value_refl(*i);
            lemma_alpha_closure_refl(c);
        },
        SpecValue::FunctionTerm(_n, c) => {
            lemma_alpha_closure_refl(c);
        },
        SpecValue::RecordType(rc) => {
            lemma_alpha_values_refl(rc.locals);
            lemma_alpha_entries_refl(rc.entries);
            assert(alpha_record_closure(rc, rc));
        },
        SpecValue::RecordTerm(rc) => {
            lemma_alpha_values_refl(rc.locals);
            lemma_alpha_entries_refl(rc.entries);
            assert(alpha_record_closure(rc, rc));
        },
        SpecValue::Sequence(vs) => {
            lemma_alpha_values_refl(vs);
        },
        _ => {},
    }
}

/// Every value list is α-equivalent to itself.
pub proof fn lemma_alpha_values_refl(s: Seq<SpecValue>)
    ensures
        alpha_values(s, s),
    decreases s,
{
    if s.len() > 0 {
        lemma_alpha_value_refl(s.last());
        lemma_alpha_values_refl(s.drop_last());
    }
}

/// Every spine is α-equivalent to itself.
pub proof fn lemma_alpha_spine_refl(s: Seq<SpecElim>)
    ensures
        alpha_spine(s, s),
    decreases s,
{
    if s.len() > 0 {
        lemma_alpha_elim_refl(s.last());
        lemma_alpha_spine_refl(s.drop_last());
    }
}

/// Every eliminator is α-equivalent to itself.
pub proof fn lemma_alpha_elim_refl(e: SpecElim)
    ensures
        alpha_elim(e, e),
    decreases e,
{
    match e {
        SpecElim::Function(lz) => {
            lemma_alpha_lazy_refl(*lz);
        },
        SpecElim::Record(_l) => {},
    }
}

/// Every suspended computation is α-equivalent to itself.
pub proof fn lemma_alpha_lazy_refl(lz: SpecLazy)
    ensures
        alpha_lazy(lz, lz),
    decreases lz,
{
    match lz {
        SpecLazy::Done(v) => {
            lemma_alpha_value_refl(*v);
        },
        SpecLazy::EvalTerm(_o, e, t) => {
            lemma_alpha_values_refl(e);
            lemma_alpha_term_refl(*t);
        },
        SpecLazy::ApplyElim(i, el) => {
            lemma_alpha_lazy_refl(*i);
            lemma_alpha_elim_refl(*el);
        },
    }
}

/// Every function closure is α-equivalent to itself.
pub proof fn lemma_alpha_closure_refl(c: SpecClosure)
    ensures
        alpha_closure(c, c),
    decreases c,
{
    lemma_alpha_values_refl(c.locals);
    lemma_alpha_term_refl(c.term);
}

// --- Symmetry ---------------------------------------------------------------

/// α-equivalence of terms is symmetric.
pub proof fn lemma_alpha_term_sym(t0: SpecTerm, t1: SpecTerm)
    requires
        alpha_term(t0, t1),
    ensures
        alpha_term(t1, t0),
    decreases t0,
{
    match (t0, t1) {
        (SpecTerm::Ann(a0, b0), SpecTerm::Ann(a1, b1)) => {
            lemma_alpha_term_sym(*a0, *a1);
            lemma_alpha_term_sym(*b0, *b1);
        },
        (SpecTerm::Lift(a0, _k0), SpecTerm::Lift(a1, _k1)) => {
            lemma_alpha_term_sym(*a0, *a1);
        },
        (SpecTerm::FunctionType(_h0, i0, o0), SpecTerm::FunctionType(_h1, i1, o1)) => {
            lemma_alpha_term_sym(*i0, *i1);
            lemma_alpha_term_sym(*o0, *o1);
        },
        (SpecTerm::FunctionTerm(_n0, b0), SpecTerm::FunctionTerm(_n1, b1)) => {
            lemma_alpha_term_sym(*b0, *b1);
        },
        (SpecTerm::FunctionElim(h0, a0), SpecTerm::FunctionElim(h1, a1)) => {
            lemma_alpha_term_sym(*h0, *h1);
            lemma_alpha_term_sym(*a0, *a1);
        },
        (SpecTerm::RecordType(es0), SpecTerm::RecordType(es1)) => {
            lemma_alpha_entries_sym(es0, es1);
        },
        (SpecTerm::RecordTerm(es0), SpecTerm::RecordTerm(es1)) => {
            lemma_alpha_entries_sym(es0, es1);
        },
        (SpecTerm::RecordElim(h0, _l0), SpecTerm::RecordElim(h1, _l1)) => {
            lemma_alpha_term_sym(*h0, *h1);
        },
        (SpecTerm::Sequence(ts0), SpecTerm::Sequence(ts1)) => {
            lemma_alpha_terms_sym(ts0, ts1);
        },
        _ => {},
    }
}

/// α-equivalence of entry lists is symmetric.
pub proof fn lemma_alpha_entries_sym(
    s0: Seq<(Seq<char>, SpecTerm)>,
    s1: Seq<(Seq<char>, SpecTerm)>,
)
    requires
        alpha_entries(s0, s1),
    ensures
        alpha_entries(s1, s0),
    decreases s0,
{
    if s0.len() > 0 {
        lemma_alpha_term_sym(s0.last().1, s1.last().1);
        lemma_alpha_entries_sym(s0.drop_last(), s1.drop_last());
    }
}

/// α-equivalence of term lists is symmetric.
pub proof fn lemma_alpha_terms_sym(s0: Seq<SpecTerm>, s1: Seq<SpecTerm>)
    requires
        alpha_terms(s0, s1),
    ensures
        alpha_terms(s1, s0),
    decreases s0,
{
    if s0.len() > 0 {
        lemma_alpha_term_sym(s0.last(), s1.last());
        lemma_alpha_terms_sym(s0.drop_last(), s1.drop_last());
    }
}

/// α-equivalence of values is symmetric.
pub proof fn lemma_alpha_value_sym(v0: SpecValue, v1: SpecValue)
    requires
        alpha_value(v0, v1),
    ensures
        alpha_value(v1, v0),
    decreases v0,
{
    match (v0, v1) {
        (SpecValue::Stuck(_h0, sp0), SpecValue::Stuck(_h1, sp1)) => {
            lemma_alpha_spine_sym(sp0, sp1);
        },
        (SpecValue::Unstuck(_h0, sp0, l0), SpecValue::Unstuck(_h1, sp1, l1)) => {
            lemma_alpha_spine_sym(sp0, sp1);
            lemma_alpha_lazy_sym(*l0, *l1);
        },
        (SpecValue::FunctionType(_h0, i0, c0), SpecValue::FunctionType(_h1, i1, c1)) => {
            lemma_alpha_value_sym(*i0, *i1);
            lemma_alpha_closure_sym(c0, c1);
        },
        (SpecValue::FunctionTerm(_n0, c0), SpecValue::FunctionTerm(_n1, c1)) => {
            lemma_alpha_closure_sym(c0, c1);
        },
        (SpecValue::RecordType(rc0), SpecValue::RecordType(rc1)) => {
            assert(alpha_record_closure(rc0, rc1));
            lemma_alpha_values_sym(rc0.locals, rc1.locals);
            lemma_alpha_entries_sym(rc0.entries, rc1.entries);
            assert(alpha_record_closure(rc1, rc0));
        },
        (SpecValue::RecordTerm(rc0), SpecValue::RecordTerm(rc1)) => {
            assert(alpha_record_closure(rc0, rc1));
            lemma_alpha_values_sym(rc0.locals, rc1.locals);
            lemma_alpha_entries_sym(rc0.entries, rc1.entries);
            assert(alpha_record_closure(rc1, rc0));
        },
        (SpecValue::Sequence(vs0), SpecValue::Sequence(vs1)) => {
            lemma_alpha_values_sym(vs0, vs1);
        },
        _ => {},
    }
}

/// α-equivalence of value lists is symmetric.
pub proof fn lemma_alpha_values_sym(s0: Seq<SpecValue>, s1: Seq<SpecValue>)
    requires
        alpha_values(s0, s1),
    ensures
        alpha_values(s1, s0),
    decreases s0,
{
    if s0.len() > 0 {
        lemma_alpha_value_sym(s0.last(), s1.last());
        lemma_alpha_values_sym(s0.drop_last(), s1.drop_last());
    }
}

/// α-equivalence of spines is symmetric.
pub proof fn lemma_alpha_spine_sym(s0: Seq<SpecElim>, s1: Seq<SpecElim>)
    requires
        alpha_spine(s0, s1),
    ensures
        alpha_spine(s1, s0),
    decreases s0,
{
    if s0.len() > 0 {
        lemma_alpha_elim_sym(s0.last(), s1.last());
        lemma_alpha_spine_sym(s0.drop_last(), s1.drop_last());
    }
}

/// α-equivalence of eliminators is symmetric.
pub proof fn lemma_alpha_elim_sym(e0: SpecElim, e1: SpecElim)
    requires
        alpha_elim(e0, e1),
    ensures
        alpha_elim(e1, e0),
    decreases e0,
{
    match (e0, e1) {
        (SpecElim::Function(l0), SpecElim::Function(l1)) => {
            lemma_alpha_lazy_sym(*l0, *l1);
        },
        _ => {},
    }
}

/// α-equivalence of suspended computations is symmetric.
pub proof fn lemma_alpha_lazy_sym(l0: SpecLazy, l1: SpecLazy)
    requires
        alpha_lazy(l0, l1),
    ensures
        alpha_lazy(l1, l0),
    decreases l0,
{
    match (l0, l1) {
        (SpecLazy::Done(v0), SpecLazy::Done(v1)) => {
            lemma_alpha_value_sym(*v0, *v1);
        },
        (SpecLazy::EvalTerm(_o0, e0, t0), SpecLazy::EvalTerm(_o1, e1, t1)) => {
            lemma_alpha_values_sym(e0, e1);
            lemma_alpha_term_sym(*t0, *t1);
        },
        (SpecLazy::ApplyElim(i0, el0), SpecLazy::ApplyElim(i1, el1)) => {
            lemma_alpha_lazy_sym(*i0, *i1);
            lemma_alpha_elim_sym(*el0, *el1);
        },
        _ => {},
    }
}

/// α-equivalence of function closures is symmetric.
pub proof fn lemma_alpha_closure_sym(c0: SpecClosure, c1: SpecClosure)
    requires
        alpha_closure(c0, c1),
    ensures
        alpha_closure(c1, c0),
    decreases c0,
{
    lemma_alpha_values_sym(c0.locals, c1.locals);
    lemma_alpha_term_sym(c0.term, c1.term);
}

/// Pushing α-equivalent values onto α-equivalent lists keeps them
/// α-equivalent.
pub proof fn lemma_alpha_values_push(
    s0: Seq<SpecValue>,
    s1: Seq<SpecValue>,
    x0: SpecValue,
    x1: SpecValue,
)
    requires
        alpha_values(s0, s1),
        alpha_value(x0, x1),
    ensures
        alpha_values(s0.push(x0), s1.push(x1)),
{
    assert(s0.push(x0).drop_last() =~= s0);
    assert(s1.push(x1).drop_last() =~= s1);
}

/// Entries of α-equivalent value lists are α-equivalent pointwise.
pub proof fn lemma_alpha_values_index(s0: Seq<SpecValue>, s1: Seq<SpecValue>, i: int)
    requires
        alpha_values(s0, s1),
        0 <= i < s0.len(),
    ensures
        alpha_value(s0[i], s1[i]),
    decreases s0,
{
    if i == s0.len() - 1 {
    } else {
        assert(s0.drop_last()[i] == s0[i]);
        assert(s1.drop_last()[i] == s1[i]);
        lemma_alpha_values_index(s0.drop_last(), s1.drop_last(), i);
    }
}

/// α-equivalent non-empty entry lists have α-equivalent first entries and
/// α-equivalent remainders.
pub proof fn lemma_alpha_entries_skip1(
    s0: Seq<(Seq<char>, SpecTerm)>,
    s1: Seq<(Seq<char>, SpecTerm)>,
)
    requires
        alpha_entries(s0, s1),
        s0.len() > 0,
    ensures
        s0[0].0 == s1[0].0,
        alpha_term(s0[0].1, s1[0].1),
        alpha_entries(s0.skip(1), s1.skip(1)),
    decreases s0,
{
    if s0.len() == 1 {
        assert(s0.skip(1) =~= Seq::<(Seq<char>, SpecTerm)>::empty());
        assert(s1.skip(1) =~= Seq::<(Seq<char>, SpecTerm)>::empty());
        assert(s0[0] == s0.last());
        assert(s1[0] == s1.last());
    } else {
        lemma_alpha_entries_skip1(s0.drop_last(), s1.drop_last());
        assert(s0.drop_last()[0] == s0[0]);
        assert(s1.drop_last()[0] == s1[0]);
        assert(s0.skip(1).drop_last() =~= s0.drop_last().skip(1));
        assert(s1.skip(1).drop_last() =~= s1.drop_last().skip(1));
        assert(s0.skip(1).last() == s0.last());
        assert(s1.skip(1).last() == s1.last());
    }
}

/// α-equivalent non-empty term lists have α-equivalent first elements and
/// remainders.
pub proof fn lemma_alpha_terms_skip1(s0: Seq<SpecTerm>, s1: Seq<SpecTerm>)
    requires
        alpha_terms(s0, s1),
        s0.len() > 0,
    ensures
        alpha_term(s0[0], s1[0]),
        alpha_terms(s0.skip(1), s1.skip(1)),
    decreases s0,
{
    if s0.len() == 1 {
        assert(s0.skip(1) =~= Seq::<SpecTerm>::empty());
        assert(s1.skip(1) =~= Seq::<SpecTerm>::empty());
        assert(s0[0] == s0.last());
        assert(s1[0] == s1.last());
    } else {
        lemma_alpha_terms_skip1(s0.drop_last(), s1.drop_last());
        assert(s0.drop_last()[0] == s0[0]);
        assert(s1.drop_last()[0] == s1[0]);
        assert(s0.skip(1).drop_last() =~= s0.drop_last().skip(1));
        assert(s1.skip(1).drop_last() =~= s1.drop_last().skip(1));
        assert(s0.skip(1).last() == s0.last());
        assert(s1.skip(1).last() == s1.last());
    }
}

/// α-equivalent non-empty value lists have α-equivalent first elements and
/// remainders.
pub proof fn lemma_alpha_values_skip1(s0: Seq<SpecValue>, s1: Seq<SpecValue>)
    requires
        alpha_values(s0, s1),
        s0.len() > 0,
    ensures
        alpha_value(s0[0], s1[0]),
        alpha_values(s0.skip(1), s1.skip(1)),
    decreases s0,
{
    if s0.len() == 1 {
        assert(s0.skip(1) =~= Seq::<SpecValue>::empty());
        assert(s1.skip(1) =~= Seq::<SpecValue>::empty());
        assert(s0[0] == s0.last());
        assert(s1[0] == s1.last());
    } else {
        lemma_alpha_values_skip1(s0.drop_last(), s1.drop_last());
        assert(s0.drop_last()[0] == s0[0]);
        assert(s1.drop_last()[0] == s1[0]);
        assert(s0.skip(1).drop_last() =~= s0.drop_last().skip(1));
        assert(s1.skip(1).drop_last() =~= s1.drop_last().skip(1));
        assert(s0.skip(1).last() == s0.last());
        assert(s1.skip(1).last() == s1.last());
    }
}

/// α-equivalent non-empty spines have α-equivalent first eliminators and
/// remainders.
pub proof fn lemma_alpha_spine_skip1(s0: Seq<SpecElim>, s1: Seq<SpecElim>)
    requires
        alpha_spine(s0, s1),
        s0.len() > 0,
    ensures
        alpha_elim(s0[0], s1[0]),
        alpha_spine(s0.skip(1), s1.skip(1)),
    decreases s0,
{
    if s0.len() == 1 {
        assert(s0.skip(1) =~= Seq::<SpecElim>::empty());
        assert(s1.skip(1) =~= Seq::<SpecElim>::empty());
        assert(s0[0] == s0.last());
        assert(s1[0] == s1.last());
    } else {
        lemma_alpha_spine_skip1(s0.drop_last(), s1.drop_last());
        assert(s0.drop_last()[0] == s0[0]);
        assert(s1.drop_last()[0] == s1[0]);
        assert(s0.skip(1).drop_last() =~= s0.drop_last().skip(1));
        assert(s1.skip(1).drop_last() =~= s1.drop_last().skip(1));
        assert(s0.skip(1).last() == s0.last());
        assert(s1.skip(1).last() == s1.last());
    }
}

/// α-equivalence of optional evaluation results: both exhausted, or both
/// values and α-equivalent.
pub open spec fn opt_alpha_value(o0: Option<SpecValue>, o1: Option<SpecValue>) -> bool {
    match (o0, o1) {
        (Option::None, Option::None) => true,
        (Option::Some(a), Option::Some(b)) => alpha_value(a, b),
        _ => false,
    }
}

/// α-equivalence of optional value-list results.
pub open spec fn opt_alpha_values(o0: Option<Seq<SpecValue>>, o1: Option<Seq<SpecValue>>) -> bool {
    match (o0, o1) {
        (Option::None, Option::None) => true,
        (Option::Some(a), Option::Some(b)) => alpha_values(a, b),
        _ => false,
    }
}

/// Prepending α-equivalent elements to α-equivalent value lists keeps them
/// α-equivalent.
pub proof fn lemma_alpha_values_cons(
    x0: SpecValue,
    x1: SpecValue,
    r0: Seq<SpecValue>,
    r1: Seq<SpecValue>,
)
    requires
        alpha_value(x0, x1),
        alpha_values(r0, r1),
    ensures
        alpha_values(seq![x0] + r0, seq![x1] + r1),
    decreases r0,
{
    if r0.len() == 0 {
        assert((seq![x0] + r0).drop_last() =~= Seq::<SpecValue>::empty());
        assert((seq![x1] + r1).drop_last() =~= Seq::<SpecValue>::empty());
        assert((seq![x0] + r0).last() == x0);
        assert((seq![x1] + r1).last() == x1);
        assert(alpha_values(Seq::<SpecValue>::empty(), Seq::<SpecValue>::empty()));
    } else {
        lemma_alpha_values_cons(x0, x1, r0.drop_last(), r1.drop_last());
        assert((seq![x0] + r0).drop_last() =~= seq![x0] + r0.drop_last());
        assert((seq![x1] + r1).drop_last() =~= seq![x1] + r1.drop_last());
        assert((seq![x0] + r0).last() == r0.last());
        assert((seq![x1] + r1).last() == r1.last());
    }
}

/// Pushing α-equivalent eliminators onto α-equivalent spines keeps them
/// α-equivalent.
pub proof fn lemma_alpha_spine_push(
    s0: Seq<SpecElim>,
    s1: Seq<SpecElim>,
    e0: SpecElim,
    e1: SpecElim,
)
    requires
        alpha_spine(s0, s1),
        alpha_elim(e0, e1),
    ensures
        alpha_spine(s0.push(e0), s1.push(e1)),
{
    assert(s0.push(e0).drop_last() =~= s0);
    assert(s1.push(e1).drop_last() =~= s1);
}

// --- Evaluation respects α -------------------------------------------------

/// Evaluating α-equivalent terms under α-equivalent environments gives
/// α-equivalent results, with identical fuel behaviour.
pub proof fn lemma_eval_alpha(
    g: SpecGlobals,
    off: nat,
    env0: Seq<SpecValue>,
    t0: SpecTerm,
    env1: Seq<SpecValue>,
    t1: SpecTerm,
    fuel: nat,
)
    requires
        alpha_values(env0, env1),
        alpha_term(t0, t1),
    ensures
        opt_alpha_value(spec_eval(g, off, env0, t0, fuel), spec_eval(g, off, env1, t1, fuel)),
    decreases fuel, 1int,
{
    if fuel == 0 {
        return;
    }
    let f = (fuel - 1) as nat;
    match (t0, t1) {
        (SpecTerm::Global(n0), SpecTerm::Global(_n1)) => {
            match spec_globals_get(g, n0) {
                Option::Some((_ty, Option::Some(d))) => {
                    lemma_alpha_term_refl(d);
                    assert(alpha_spine(Seq::<SpecElim>::empty(), Seq::<SpecElim>::empty()));
                    assert(alpha_lazy(
                        SpecLazy::EvalTerm(off, env0, Box::new(d)),
                        SpecLazy::EvalTerm(off, env1, Box::new(d)),
                    ));
                    assert(opt_alpha_value(
                        spec_eval(g, off, env0, t0, fuel),
                        spec_eval(g, off, env1, t1, fuel),
                    ));
                },
                _ => {
                    assert(alpha_spine(Seq::<SpecElim>::empty(), Seq::<SpecElim>::empty()));
                    assert(opt_alpha_value(
                        spec_eval(g, off, env0, t0, fuel),
                        spec_eval(g, off, env1, t1, fuel),
                    ));
                },
            }
        },
        (SpecTerm::Local(i0), SpecTerm::Local(_i1)) => {
            if i0 < env0.len() {
                lemma_alpha_values_index(env0, env1, env0.len() - 1 - i0);
            }
        },
        (SpecTerm::Ann(a0, _b0), SpecTerm::Ann(a1, _b1)) => {
            lemma_eval_alpha(g, off, env0, *a0, env1, *a1, f);
        },
        (SpecTerm::TypeType(_l0), SpecTerm::TypeType(_l1)) => {
        },
        (SpecTerm::Lift(a0, k0), SpecTerm::Lift(a1, _k1)) => {
            if off + k0 <= level_bound() {
                lemma_eval_alpha(g, off + k0, env0, *a0, env1, *a1, f);
            }
        },
        (SpecTerm::FunctionType(_h0, i0, o0), SpecTerm::FunctionType(_h1, i1, o1)) => {
            lemma_eval_alpha(g, off, env0, *i0, env1, *i1, f);
            match (spec_eval(g, off, env0, *i0, f), spec_eval(g, off, env1, *i1, f)) {
                (Option::Some(iv0), Option::Some(iv1)) => {
                    assert(alpha_closure(
                        SpecClosure { universe_offset: off, locals: env0, term: *o0 },
                        SpecClosure { universe_offset: off, locals: env1, term: *o1 },
                    ));
                    assert(opt_alpha_value(
                        spec_eval(g, off, env0, t0, fuel),
                        spec_eval(g, off, env1, t1, fuel),
                    ));
                },
                _ => {},
            }
        },
        (SpecTerm::FunctionTerm(_n0, b0), SpecTerm::FunctionTerm(_n1, b1)) => {
            assert(alpha_closure(
                SpecClosure { universe_offset: off, locals: env0, term: *b0 },
                SpecClosure { universe_offset: off, locals: env1, term: *b1 },
            ));
            assert(opt_alpha_value(
                spec_eval(g, off, env0, t0, fuel),
                spec_eval(g, off, env1, t1, fuel),
            ));
        },
        (SpecTerm::FunctionElim(h0, a0), SpecTerm::FunctionElim(h1, a1)) => {
            lemma_eval_alpha(g, off, env0, *h0, env1, *h1, f);
            match (spec_eval(g, off, env0, *h0, f), spec_eval(g, off, env1, *h1, f)) {
                (Option::Some(hv0), Option::Some(hv1)) => {
                    assert(alpha_lazy(
                        SpecLazy::EvalTerm(off, env0, a0),
                        SpecLazy::EvalTerm(off, env1, a1),
                    ));
                    lemma_apply_function_alpha(
                        g,
                        hv0,
                        SpecLazy::EvalTerm(off, env0, a0),
                        hv1,
                        SpecLazy::EvalTerm(off, env1, a1),
                        f,
                    );
                },
                _ => {},
            }
        },
        (SpecTerm::RecordType(es0), SpecTerm::RecordType(es1)) => {
            assert(alpha_record_closure(
                SpecRecordClosure { universe_offset: off, locals: env0, entries: es0 },
                SpecRecordClosure { universe_offset: off, locals: env1, entries: es1 },
            ));
            assert(opt_alpha_value(
                spec_eval(g, off, env0, t0, fuel),
                spec_eval(g, off, env1, t1, fuel),
            ));
        },
        (SpecTerm::RecordTerm(es0), SpecTerm::RecordTerm(es1)) => {
            assert(alpha_record_closure(
                SpecRecordClosure { universe_offset: off, locals: env0, entries: es0 },
                SpecRecordClosure { universe_offset: off, locals: env1, entries: es1 },
            ));
            assert(opt_alpha_value(
                spec_eval(g, off, env0, t0, fuel),
                spec_eval(g, off, env1, t1, fuel),
            ));
        },
        (SpecTerm::RecordElim(h0, l0), SpecTerm::RecordElim(h1, _l1)) => {
            lemma_eval_alpha(g, off, env0, *h0, env1, *h1, f);
            match (spec_eval(g, off, env0, *h0, f), spec_eval(g, off, env1, *h1, f)) {
                (Option::Some(hv0), Option::Some(hv1)) => {
                    lemma_apply_record_alpha(g, hv0, hv1, l0, f);
                },
                _ => {},
            }
        },
        (SpecTerm::Sequence(ts0), SpecTerm::Sequence(ts1)) => {
            lemma_eval_sequence_alpha(g, off, env0, ts0, env1, ts1, f);
        },
        (SpecTerm::Constant(_c0), SpecTerm::Constant(_c1)) => {
        },
        (SpecTerm::Error, SpecTerm::Error) => {
        },
        _ => {},
    }
}

/// Evaluating the entries of α-equivalent sequence literals gives
/// α-equivalent results.
pub proof fn lemma_eval_sequence_alpha(
    g: SpecGlobals,
    off: nat,
    env0: Seq<SpecValue>,
    ts0: Seq<SpecTerm>,
    env1: Seq<SpecValue>,
    ts1: Seq<SpecTerm>,
    fuel: nat,
)
    requires
        alpha_values(env0, env1),
        alpha_terms(ts0, ts1),
    ensures
        opt_alpha_values(
            spec_eval_sequence(g, off, env0, ts0, fuel),
            spec_eval_sequence(g, off, env1, ts1, fuel),
        ),
    decreases fuel, 0int,
{
    if fuel == 0 || ts0.len() == 0 {
        return;
    }
    let f = (fuel - 1) as nat;
    lemma_alpha_terms_skip1(ts0, ts1);
    lemma_eval_alpha(g, off, env0, ts0[0], env1, ts1[0], f);
    match (spec_eval(g, off, env0, ts0[0], f), spec_eval(g, off, env1, ts1[0], f)) {
        (Option::Some(v0), Option::Some(v1)) => {
            lemma_eval_sequence_alpha(g, off, env0, ts0.skip(1), env1, ts1.skip(1), f);
            match (
                spec_eval_sequence(g, off, env0, ts0.skip(1), f),
                spec_eval_sequence(g, off, env1, ts1.skip(1), f),
            ) {
                (Option::Some(r0), Option::Some(r1)) => {
                    lemma_alpha_values_cons(v0, v1, r0, r1);
                },
                _ => {},
            }
        },
        _ => {},
    }
}

/// Applying a function eliminator to α-equivalent heads and arguments gives
/// α-equivalent results.
pub proof fn lemma_apply_function_alpha(
    g: SpecGlobals,
    h0: SpecValue,
    i0: SpecLazy,
    h1: SpecValue,
    i1: SpecLazy,
    fuel: nat,
)
    requires
        alpha_value(h0, h1),
        alpha_lazy(i0, i1),
    ensures
        opt_alpha_value(
            spec_apply_function(g, h0, i0, fuel),
            spec_apply_function(g, h1, i1, fuel),
        ),
    decreases fuel, 0int,
{
    if fuel == 0 {
        return;
    }
    let f = (fuel - 1) as nat;
    match (h0, h1) {
        (SpecValue::Stuck(hh0, sp0), SpecValue::Stuck(_hh1, sp1)) => {
            lemma_alpha_spine_push(
                sp0,
                sp1,
                SpecElim::Function(Box::new(i0)),
                SpecElim::Function(Box::new(i1)),
            );
            assert(opt_alpha_value(
                spec_apply_function(g, h0, i0, fuel),
                spec_apply_function(g, h1, i1, fuel),
            ));
        },
        (SpecValue::Unstuck(hh0, sp0, l0), SpecValue::Unstuck(_hh1, sp1, l1)) => {
            lemma_alpha_spine_push(
                sp0,
                sp1,
                SpecElim::Function(Box::new(i0)),
                SpecElim::Function(Box::new(i1)),
            );
            assert(alpha_lazy(
                SpecLazy::ApplyElim(l0, Box::new(SpecElim::Function(Box::new(i0)))),
                SpecLazy::ApplyElim(l1, Box::new(SpecElim::Function(Box::new(i1)))),
            ));
            assert(opt_alpha_value(
                spec_apply_function(g, h0, i0, fuel),
                spec_apply_function(g, h1, i1, fuel),
            ));
        },
        (SpecValue::FunctionTerm(_n0, c0), SpecValue::FunctionTerm(_n1, c1)) => {
            assert(alpha_closure(c0, c1));
            lemma_force_alpha(g, i0, i1, f);
            match (spec_force(g, i0, f), spec_force(g, i1, f)) {
                (Option::Some(v0), Option::Some(v1)) => {
                    lemma_alpha_values_push(c0.locals, c1.locals, v0, v1);
                    lemma_eval_alpha(
                        g,
                        c0.universe_offset,
                        c0.locals.push(v0),
                        c0.term,
                        c1.locals.push(v1),
                        c1.term,
                        f,
                    );
                },
                _ => {},
            }
        },
        _ => {},
    }
}

/// Applying a record projection to α-equivalent heads gives α-equivalent
/// results.
pub proof fn lemma_apply_record_alpha(
    g: SpecGlobals,
    h0: SpecValue,
    h1: SpecValue,
    label: Seq<char>,
    fuel: nat,
)
    requires
        alpha_value(h0, h1),
    ensures
        opt_alpha_value(
            spec_apply_record(g, h0, label, fuel),
            spec_apply_record(g, h1, label, fuel),
        ),
    decreases fuel, 0int,
{
    if fuel == 0 {
        return;
    }
    let f = (fuel - 1) as nat;
    match (h0, h1) {
        (SpecValue::Stuck(hh0, sp0), SpecValue::Stuck(_hh1, sp1)) => {
            lemma_alpha_spine_push(sp0, sp1, SpecElim::Record(label), SpecElim::Record(label));
            assert(opt_alpha_value(
                spec_apply_record(g, h0, label, fuel),
                spec_apply_record(g, h1, label, fuel),
            ));
        },
        (SpecValue::Unstuck(hh0, sp0, l0), SpecValue::Unstuck(_hh1, sp1, l1)) => {
            lemma_alpha_spine_push(sp0, sp1, SpecElim::Record(label), SpecElim::Record(label));
            assert(alpha_lazy(
                SpecLazy::ApplyElim(l0, Box::new(SpecElim::Record(label))),
                SpecLazy::ApplyElim(l1, Box::new(SpecElim::Record(label))),
            ));
            assert(opt_alpha_value(
                spec_apply_record(g, h0, label, fuel),
                spec_apply_record(g, h1, label, fuel),
            ));
        },
        (SpecValue::RecordTerm(rc0), SpecValue::RecordTerm(rc1)) => {
            assert(alpha_record_closure(rc0, rc1));
            lemma_record_project_alpha(
                g,
                rc0.universe_offset,
                rc0.locals,
                rc0.entries,
                rc1.locals,
                rc1.entries,
                label,
                f,
            );
        },
        _ => {},
    }
}

/// Projecting a label out of α-equivalent record entries gives α-equivalent
/// results.
pub proof fn lemma_record_project_alpha(
    g: SpecGlobals,
    off: nat,
    env0: Seq<SpecValue>,
    es0: Seq<(Seq<char>, SpecTerm)>,
    env1: Seq<SpecValue>,
    es1: Seq<(Seq<char>, SpecTerm)>,
    label: Seq<char>,
    fuel: nat,
)
    requires
        alpha_values(env0, env1),
        alpha_entries(es0, es1),
    ensures
        opt_alpha_value(
            spec_record_project(g, off, env0, es0, label, fuel),
            spec_record_project(g, off, env1, es1, label, fuel),
        ),
    decreases fuel, 0int,
{
    if fuel == 0 || es0.len() == 0 {
        return;
    }
    let f = (fuel - 1) as nat;
    lemma_alpha_entries_skip1(es0, es1);
    lemma_eval_alpha(g, off, env0, es0[0].1, env1, es1[0].1, f);
    match (spec_eval(g, off, env0, es0[0].1, f), spec_eval(g, off, env1, es1[0].1, f)) {
        (Option::Some(v0), Option::Some(v1)) => {
            if es0[0].0 != label {
                lemma_alpha_values_push(env0, env1, v0, v1);
                lemma_record_project_alpha(
                    g,
                    off,
                    env0.push(v0),
                    es0.skip(1),
                    env1.push(v1),
                    es1.skip(1),
                    label,
                    f,
                );
            }
        },
        _ => {},
    }
}

/// Forcing α-equivalent suspended computations gives α-equivalent results.
pub proof fn lemma_force_alpha(g: SpecGlobals, l0: SpecLazy, l1: SpecLazy, fuel: nat)
    requires
        alpha_lazy(l0, l1),
    ensures
        opt_alpha_value(spec_force(g, l0, fuel), spec_force(g, l1, fuel)),
    decreases fuel, 0int,
{
    if fuel == 0 {
        return;
    }
    let f = (fuel - 1) as nat;
    match (l0, l1) {
        (SpecLazy::Done(v0), SpecLazy::Done(v1)) => {
            assert(alpha_value(*v0, *v1));
        },
        (SpecLazy::EvalTerm(o0, e0, t0), SpecLazy::EvalTerm(_o1, e1, t1)) => {
            lemma_eval_alpha(g, o0, e0, *t0, e1, *t1, f);
        },
        (SpecLazy::ApplyElim(i0, el0), SpecLazy::ApplyElim(i1, el1)) => {
            assert(alpha_lazy(*i0, *i1));
            assert(alpha_elim(*el0, *el1));
            lemma_force_alpha(g, *i0, *i1, f);
            match (spec_force(g, *i0, f), spec_force(g, *i1, f)) {
                (Option::Some(w0), Option::Some(w1)) => {
                    match (*el0, *el1) {
                        (SpecElim::Function(a0), SpecElim::Function(a1)) => {
                            assert(alpha_lazy(*a0, *a1));
                            lemma_apply_function_alpha(g, w0, *a0, w1, *a1, f);
                        },
                        (SpecElim::Record(la0), SpecElim::Record(_la1)) => {
                            lemma_apply_record_alpha(g, w0, w1, la0, f);
                        },
                        _ => {},
                    }
                },
                _ => {},
            }
        },
        _ => {},
    }
}

// --- Conversion never refutes α-equivalence --------------------------------

/// Comparing α-equivalent stuck values never answers *no*.
pub proof fn lemma_is_equal_stuck_alpha(
    g: SpecGlobals,
    size: nat,
    h0: SpecHead,
    sp0: Seq<SpecElim>,
    h1: SpecHead,
    sp1: Seq<SpecElim>,
    fuel: nat,
)
    requires
        h0 == h1,
        alpha_spine(sp0, sp1),
    ensures
        spec_is_equal_stuck(g, size, h0, sp0, h1, sp1, fuel) != Option::Some(false),
    decreases fuel, 1int,
{
    if fuel > 0 {
        assert(spec_head_eq(h0, h1)) by {
            match h0 {
                SpecHead::Global(_n, _o) => {},
                SpecHead::Local(_l) => {},
            }
        }
        lemma_is_equal_spine_alpha(g, size, sp0, sp1, (fuel - 1) as nat);
    }
}

/// Comparing α-equivalent spines never answers *no*.
pub proof fn lemma_is_equal_spine_alpha(
    g: SpecGlobals,
    size: nat,
    sp0: Seq<SpecElim>,
    sp1: Seq<SpecElim>,
    fuel: nat,
)
    requires
        alpha_spine(sp0, sp1),
    ensures
        spec_is_equal_spine(g, size, sp0, sp1, fuel) != Option::Some(false),
    decreases fuel, 0int,
{
    if fuel == 0 || sp0.len() == 0 {
        return;
    }
    let f = (fuel - 1) as nat;
    lemma_alpha_spine_skip1(sp0, sp1);
    match (sp0[0], sp1[0]) {
        (SpecElim::Function(a0), SpecElim::Function(a1)) => {
            assert(alpha_lazy(*a0, *a1));
            lemma_force_alpha(g, *a0, *a1, f);
            match (spec_force(g, *a0, f), spec_force(g, *a1, f)) {
                (Option::Some(v0), Option::Some(v1)) => {
                    lemma_is_equal_alpha(g, size, v0, v1, f);
                    match spec_is_equal(g, size, v0, v1, f) {
                        Option::Some(true) => {
                            lemma_is_equal_spine_alpha(g, size, sp0.skip(1), sp1.skip(1), f);
                        },
                        _ => {},
                    }
                },
                _ => {},
            }
        },
        (SpecElim::Record(_l0), SpecElim::Record(_l1)) => {
            lemma_is_equal_spine_alpha(g, size, sp0.skip(1), sp1.skip(1), f);
        },
        _ => {},
    }
}

/// Comparing α-equivalent values never answers *no*: the conversion
/// checker cannot tell apart values that differ only in bound names.
pub proof fn lemma_is_equal_alpha(
    g: SpecGlobals,
    size: nat,
    v0: SpecValue,
    v1: SpecValue,
    fuel: nat,
)
    requires
        alpha_value(v0, v1),
    ensures
        spec_is_equal(g, size, v0, v1, fuel) != Option::Some(false),
    decreases fuel, 2int,
{
    if fuel == 0 {
        return;
    }
    let f = (fuel - 1) as nat;
    match (v0, v1) {
        (SpecValue::Stuck(h0, sp0), SpecValue::Stuck(h1, sp1)) => {
            lemma_is_equal_stuck_alpha(g, size, h0, sp0, h1, sp1, f);
        },
        (SpecValue::Unstuck(h0, sp0, l0), SpecValue::Unstuck(h1, sp1, l1)) => {
            lemma_is_equal_stuck_alpha(g, size, h0, sp0, h1, sp1, f);
        },
        (SpecValue::FunctionType(_h0, i0, c0), SpecValue::FunctionType(_h1, i1, c1)) => {
            assert(alpha_value(*i0, *i1));
            assert(alpha_closure(c0, c1));
            lemma_alpha_value_sym(*i0, *i1);
            lemma_is_equal_alpha(g, size, *i1, *i0, f);
            match spec_is_equal(g, size, *i1, *i0, f) {
                Option::Some(true) => {
                    if size < level_bound() {
                        let local = SpecValue::Stuck(SpecHead::Local(size), Seq::empty());
                        assert(alpha_value(local, local)) by {
                            assert(alpha_spine(Seq::<SpecElim>::empty(), Seq::<SpecElim>::empty()));
                        }
                        lemma_alpha_values_push(c0.locals, c1.locals, local, local);
                        lemma_eval_alpha(
                            g,
                            c0.universe_offset,
                            c0.locals.push(local),
                            c0.term,
                            c1.locals.push(local),
                            c1.term,
                            f,
                        );
                        match (
                            spec_eval(g, c0.universe_offset, c0.locals.push(local), c0.term, f),
                            spec_eval(g, c1.universe_offset, c1.locals.push(local), c1.term, f),
                        ) {
                            (Option::Some(o0), Option::Some(o1)) => {
                                lemma_is_equal_alpha(g, size + 1, o0, o1, f);
                            },
                            _ => {},
                        }
                    }
                },
                _ => {},
            }
        },
        (SpecValue::FunctionTerm(_n0, c0), SpecValue::FunctionTerm(_n1, c1)) => {
            assert(alpha_closure(c0, c1));
            if size < level_bound() {
                let local = SpecValue::Stuck(SpecHead::Local(size), Seq::empty());
                assert(alpha_value(local, local)) by {
                    assert(alpha_spine(Seq::<SpecElim>::empty(), Seq::<SpecElim>::empty()));
                }
                lemma_alpha_values_push(c0.locals, c1.locals, local, local);
                lemma_eval_alpha(
                    g,
                    c0.universe_offset,
                    c0.locals.push(local),
                    c0.term,
                    c1.locals.push(local),
                    c1.term,
                    f,
                );
                match (
                    spec_eval(g, c0.universe_offset, c0.locals.push(local), c0.term, f),
                    spec_eval(g, c1.universe_offset, c1.locals.push(local), c1.term, f),
                ) {
                    (Option::Some(o0), Option::Some(o1)) => {
                        lemma_is_equal_alpha(g, size + 1, o0, o1, f);
                    },
                    _ => {},
                }
            }
        },
        (SpecValue::RecordType(rc0), SpecValue::RecordType(rc1)) => {
            assert(alpha_record_closure(rc0, rc1));
            lemma_is_equal_record_alpha(
                g,
                size,
                rc0.universe_offset,
                rc0.locals,
                rc0.entries,
                rc1.locals,
                rc1.entries,
                f,
            );
        },
        (SpecValue::RecordTerm(rc0), SpecValue::RecordTerm(rc1)) => {
            assert(alpha_record_closure(rc0, rc1));
            lemma_is_equal_record_alpha(
                g,
                size,
                rc0.universe_offset,
                rc0.locals,
                rc0.entries,
                rc1.locals,
                rc1.entries,
                f,
            );
        },
        (SpecValue::Sequence(vs0), SpecValue::Sequence(vs1)) => {
            lemma_is_equal_values_alpha(g, size, vs0, vs1, f);
        },
        _ => {},
    }
}

/// Comparing the entries of α-equivalent record closures under one shared
/// offset never answers *no*.
pub proof fn lemma_is_equal_record_alpha(
    g: SpecGlobals,
    size: nat,
    off: nat,
    env0: Seq<SpecValue>,
    es0: Seq<(Seq<char>, SpecTerm)>,
    env1: Seq<SpecValue>,
    es1: Seq<(Seq<char>, SpecTerm)>,
    fuel: nat,
)
    requires
        alpha_values(env0, env1),
        alpha_entries(es0, es1),
    ensures
        spec_is_equal_record(g, size, off, env0, es0, off, env1, es1, fuel) != Option::Some(
            false,
        ),
    decreases fuel, 0int,
{
    assert(es0.len() == es1.len());
    if fuel == 0 || es0.len() == 0 {
        return;
    }
    lemma_alpha_entries_skip1(es0, es1);
    assert(es0[0].0 == es1[0].0);
    assert(alpha_term(es0[0].1, es1[0].1));
    if size >= level_bound() {
        return;
    }
    let f = (fuel - 1) as nat;
    lemma_eval_alpha(g, off, env0, es0[0].1, env1, es1[0].1, f);
    match (spec_eval(g, off, env0, es0[0].1, f), spec_eval(g, off, env1, es1[0].1, f)) {
        (Option::Some(e0), Option::Some(e1)) => {
            lemma_is_equal_alpha(g, size, e0, e1, f);
            match spec_is_equal(g, size, e0, e1, f) {
                Option::Some(true) => {
                    let local = SpecValue::Stuck(SpecHead::Local(size), Seq::empty());
                    assert(alpha_value(local, local)) by {
                        assert(alpha_spine(Seq::<SpecElim>::empty(), Seq::<SpecElim>::empty()));
                    }
                    lemma_alpha_values_push(env0, env1, local, local);
                    lemma_is_equal_record_alpha(
                        g,
                        size + 1,
                        off,
                        env0.push(local),
                        es0.skip(1),
                        env1.push(local),
                        es1.skip(1),
                        f,
                    );
                    assert(spec_is_equal_record(g, size, off, env0, es0, off, env1, es1, fuel)
                        == spec_is_equal_record(
                        g,
                        size + 1,
                        off,
                        env0.push(local),
                        es0.skip(1),
                        off,
                        env1.push(local),
                        es1.skip(1),
                        f,
                    ));
                },
                _ => {},
            }
        },
        _ => {},
    }
}

/// Comparing α-equivalent value lists never answers *no*.
pub proof fn lemma_is_equal_values_alpha(
    g: SpecGlobals,
    size: nat,
    vs0: Seq<SpecValue>,
    vs1: Seq<SpecValue>,
    fuel: nat,
)
    requires
        alpha_values(vs0, vs1),
    ensures
        spec_is_equal_values(g, size, vs0, vs1, fuel) != Option::Some(false),
    decreases fuel, 0int,
{
    if fuel == 0 || vs0.len() == 0 {
        return;
    }
    let f = (fuel - 1) as nat;
    lemma_alpha_values_skip1(vs0, vs1);
    lemma_is_equal_alpha(g, size, vs0[0], vs1[0], f);
    match spec_is_equal(g, size, vs0[0], vs1[0], f) {
        Option::Some(true) => {
            lemma_is_equal_values_alpha(g, size, vs0.skip(1), vs1.skip(1), f);
        },
        _ => {},
    }
}

// --- α-invariance -----------------------------------------------------------

/// α-invariance of evaluation: two terms that differ only in bound names,
/// evaluated under one environment, produce values that definitional
/// equality never tells apart.
pub proof fn lemma_alpha_invariance(
    g: SpecGlobals,
    off: nat,
    env: Seq<SpecValue>,
    t0: SpecTerm,
    t1: SpecTerm,
    size: nat,
    eval_fuel: nat,
    eq_fuel: nat,
    v0: SpecValue,
    v1: SpecValue,
)
    requires
        alpha_term(t0, t1),
        spec_eval(g, off, env, t0, eval_fuel) == Option::Some(v0),
        spec_eval(g, off, env, t1, eval_fuel) == Option::Some(v1),
    ensures
        spec_is_equal(g, size, v0, v1, eq_fuel) != Option::Some(false),
{
    lemma_alpha_values_refl(env);
    lemma_eval_alpha(g, off, env, t0, env, t1, eval_fuel);
    lemma_is_equal_alpha(g, size, v0, v1, eq_fuel);
}

} // verus!
