//! Conversion checking: definitional equality and cumulative subtyping.
//!
//! Equality is decided structurally on weak-head values, descending under
//! binders by applying closures to a shared fresh local variable, so it is
//! an equality up to bound names (α) and β-η-conversion. Glued values are
//! compared by their stuck shells first: when two unstuck values share a
//! head and spine the payloads are never forced. The universe offset stored
//! on a stuck global is deliberately ignored, since differing offsets with
//! equal spines denote the same neutral.
//!
//! Subtyping differs from equality only on universes (`Type l1 <= Type l2`
//! iff `l1 <= l2`), function types (contravariant inputs) and record types
//! (width-equal, fields covariant); it is defined only between types, and
//! every non-type value falls through to `false`. The `Error` sentinel
//! absorbs both relations.
//!
//! The result `None` means the fuel bound was exhausted (or a binder depth
//! beyond the machine word was reached) before a decision was made.

use std::rc::Rc;
use vstd::prelude::*;

use crate::semantics::level_bound;
use crate::semantics::spec_eval;
use crate::semantics::spec_force;
use crate::value::Elim;
use crate::value::Globals;
use crate::value::Head;
use crate::value::Locals;
use crate::value::SpecElim;
use crate::value::SpecGlobals;
use crate::value::SpecHead;
use crate::value::SpecValue;
use crate::value::Value;
use crate::value::elims_view;
use crate::value::lemma_elims_view;
use crate::value::lemma_values_view;
use crate::value::value_view;
use crate::value::values_view;
use crate::term::SpecTerm;
use crate::term::Term;
use crate::term::entries_view;
use crate::term::lemma_entries_view;
use crate::eval::eval_term;

verus! {

/// Head equality: globals by name (the universe offset is ignored), locals
/// by level.
pub open spec fn spec_head_eq(h0: SpecHead, h1: SpecHead) -> bool {
    match (h0, h1) {
        (SpecHead::Global(n0, _o0), SpecHead::Global(n1, _o1)) => n0 == n1,
        (SpecHead::Local(l0), SpecHead::Local(l1)) => l0 == l1,
        _ => false,
    }
}

/// Pairwise comparison of two spines of equal length: function arguments
/// are forced and compared as values, record labels as strings.
pub open spec fn spec_is_equal_spine(
    g: SpecGlobals,
    size: nat,
    sp0: Seq<SpecElim>,
    sp1: Seq<SpecElim>,
    fuel: nat,
) -> Option<bool>
    decreases fuel,
{
    if fuel == 0 {
        Option::None
    } else if sp0.len() != sp1.len() {
        Option::Some(false)
    } else if sp0.len() == 0 {
        Option::Some(true)
    } else {
        let f = (fuel - 1) as nat;
        match (sp0[0], sp1[0]) {
            (SpecElim::Function(i0), SpecElim::Function(i1)) => match spec_force(g, *i0, f) {
                Option::None => Option::None,
                Option::Some(v0) => match spec_force(g, *i1, f) {
                    Option::None => Option::None,
                    Option::Some(v1) => match spec_is_equal(g, size, v0, v1, f) {
                        Option::None => Option::None,
                        Option::Some(false) => Option::Some(false),
                        Option::Some(true) => spec_is_equal_spine(
                            g,
                            size,
                            sp0.skip(1),
                            sp1.skip(1),
                            f,
                        ),
                    },
                },
            },
            (SpecElim::Record(l0), SpecElim::Record(l1)) => if l0 == l1 {
                spec_is_equal_spine(g, size, sp0.skip(1), sp1.skip(1), f)
            } else {
                Option::Some(false)
            },
            _ => Option::Some(false),
        }
    }
}

/// Equality of two stuck values: equal heads, then pairwise-equal spines.
pub open spec fn spec_is_equal_stuck(
    g: SpecGlobals,
    size: nat,
    h0: SpecHead,
    sp0: Seq<SpecElim>,
    h1: SpecHead,
    sp1: Seq<SpecElim>,
    fuel: nat,
) -> Option<bool>
    decreases fuel,
{
    if fuel == 0 {
        Option::None
    } else if !spec_head_eq(h0, h1) || sp0.len() != sp1.len() {
        Option::Some(false)
    } else {
        spec_is_equal_spine(g, size, sp0, sp1, (fuel - 1) as nat)
    }
}

/// Definitional equality of two values evaluated against a local
/// environment of the given size.
pub open spec fn spec_is_equal(
    g: SpecGlobals,
    size: nat,
    v0: SpecValue,
    v1: SpecValue,
    fuel: nat,
) -> Option<bool>
    decreases fuel,
{
    if fuel == 0 {
        Option::None
    } else {
        let f = (fuel - 1) as nat;
        match (v0, v1) {
            (SpecValue::Stuck(h0, sp0), SpecValue::Stuck(h1, sp1)) => spec_is_equal_stuck(
                g,
                size,
                h0,
                sp0,
                h1,
                sp1,
                f,
            ),
            (SpecValue::Unstuck(h0, sp0, l0), SpecValue::Unstuck(h1, sp1, l1)) => match
                spec_is_equal_stuck(g, size, h0, sp0, h1, sp1, f) {
                Option::None => Option::None,
                Option::Some(true) => Option::Some(true),
                Option::Some(false) => match spec_force(g, *l0, f) {
                    Option::None => Option::None,
                    Option::Some(w0) => match spec_force(g, *l1, f) {
                        Option::None => Option::None,
                        Option::Some(w1) => spec_is_equal(g, size, w0, w1, f),
                    },
                },
            },
            (SpecValue::Unstuck(_h0, _sp0, l0), w1) => match spec_force(g, *l0, f) {
                Option::None => Option::None,
                Option::Some(w0) => spec_is_equal(g, size, w0, w1, f),
            },
            (w0, SpecValue::Unstuck(_h1, _sp1, l1)) => match spec_force(g, *l1, f) {
                Option::None => Option::None,
                Option::Some(w1) => spec_is_equal(g, size, w0, w1, f),
            },
            (SpecValue::TypeType(a), SpecValue::TypeType(b)) => Option::Some(a == b),
            (SpecValue::FunctionType(_n0, i0, c0), SpecValue::FunctionType(_n1, i1, c1)) => match
                spec_is_equal(g, size, *i1, *i0, f) {
                Option::None => Option::None,
                Option::Some(false) => Option::Some(false),
                Option::Some(true) => if size < level_bound() {
                    let local = SpecValue::Stuck(SpecHead::Local(size), Seq::empty());
                    match spec_eval(g, c0.universe_offset, c0.locals.push(local), c0.term, f) {
                        Option::None => Option::None,
                        Option::Some(o0) => match spec_eval(
                            g,
                            c1.universe_offset,
                            c1.locals.push(local),
                            c1.term,
                            f,
                        ) {
                            Option::None => Option::None,
                            Option::Some(o1) => spec_is_equal(g, size + 1, o0, o1, f),
                        },
                    }
                } else {
                    Option::None
                },
            },
            (SpecValue::FunctionTerm(_n0, c0), SpecValue::FunctionTerm(_n1, c1)) => if size
                < level_bound() {
                let local = SpecValue::Stuck(SpecHead::Local(size), Seq::empty());
                match spec_eval(g, c0.universe_offset, c0.locals.push(local), c0.term, f) {
                    Option::None => Option::None,
                    Option::Some(o0) => match spec_eval(
                        g,
                        c1.universe_offset,
                        c1.locals.push(local),
                        c1.term,
                        f,
                    ) {
                        Option::None => Option::None,
                        Option::Some(o1) => spec_is_equal(g, size + 1, o0, o1, f),
                    },
                }
            } else {
                Option::None
            },
            (SpecValue::RecordType(rc0), SpecValue::RecordType(rc1)) => if rc0.entries.len()
                == rc1.entries.len() {
                spec_is_equal_record(
                    g,
                    size,
                    rc0.universe_offset,
                    rc0.locals,
                    rc0.entries,
                    rc1.universe_offset,
                    rc1.locals,
                    rc1.entries,
                    f,
                )
            } else {
                Option::Some(false)
            },
            (SpecValue::RecordTerm(rc0), SpecValue::RecordTerm(rc1)) => if rc0.entries.len()
                == rc1.entries.len() {
                spec_is_equal_record(
                    g,
                    size,
                    rc0.universe_offset,
                    rc0.locals,
                    rc0.entries,
                    rc1.universe_offset,
                    rc1.locals,
                    rc1.entries,
                    f,
                )
            } else {
                Option::Some(false)
            },
            (SpecValue::Sequence(vs0), SpecValue::Sequence(vs1)) => if vs0.len() == vs1.len() {
                spec_is_equal_values(g, size, vs0, vs1, f)
            } else {
                Option::Some(false)
            },
            (SpecValue::Constant(a), SpecValue::Constant(b)) => Option::Some(a == b),
            (SpecValue::Error, _) => Option::Some(true),
            (_, SpecValue::Error) => Option::Some(true),
            _ => Option::Some(false),
        }
    }
}

/// Entry-by-entry equality of two record closures of equal length: labels
/// must match in order; each pair of entries is evaluated in its own
/// environment and compared, and both environments then grow by a shared
/// fresh local.
pub open spec fn spec_is_equal_record(
    g: SpecGlobals,
    size: nat,
    off0: nat,
    env0: Seq<SpecValue>,
    es0: Seq<(Seq<char>, SpecTerm)>,
    off1: nat,
    env1: Seq<SpecValue>,
    es1: Seq<(Seq<char>, SpecTerm)>,
    fuel: nat,
) -> Option<bool>
    decreases fuel,
{
    if fuel == 0 {
        Option::None
    } else if es0.len() != es1.len() {
        Option::Some(false)
    } else if es0.len() == 0 {
        Option::Some(true)
    } else if es0[0].0 != es1[0].0 {
        Option::Some(false)
    } else if size >= level_bound() {
        Option::None
    } else {
        let f = (fuel - 1) as nat;
        match spec_eval(g, off0, env0, es0[0].1, f) {
            Option::None => Option::None,
            Option::Some(e0) => match spec_eval(g, off1, env1, es1[0].1, f) {
                Option::None => Option::None,
                Option::Some(e1) => match spec_is_equal(g, size, e0, e1, f) {
                    Option::None => Option::None,
                    Option::Some(false) => Option::Some(false),
                    Option::Some(true) => {
                        let local = SpecValue::Stuck(SpecHead::Local(size), Seq::empty());
                        spec_is_equal_record(
                            g,
                            size + 1,
                            off0,
                            env0.push(local),
                            es0.skip(1),
                            off1,
                            env1.push(local),
                            es1.skip(1),
                            f,
                        )
                    },
                },
            },
        }
    }
}

/// Pointwise equality of two value lists of equal length.
pub open spec fn spec_is_equal_values(
    g: SpecGlobals,
    size: nat,
    vs0: Seq<SpecValue>,
    vs1: Seq<SpecValue>,
    fuel: nat,
) -> Option<bool>
    decreases fuel,
{
    if fuel == 0 {
        Option::None
    } else if vs0.len() != vs1.len() {
        Option::Some(false)
    } else if vs0.len() == 0 {
        Option::Some(true)
    } else {
        let f = (fuel - 1) as nat;
        match spec_is_equal(g, size, vs0[0], vs1[0], f) {
            Option::None => Option::None,
            Option::Some(false) => Option::Some(false),
            Option::Some(true) => spec_is_equal_values(g, size, vs0.skip(1), vs1.skip(1), f),
        }
    }
}

/// Cumulative subtyping between two type values.
pub open spec fn spec_is_subtype(
    g: SpecGlobals,
    size: nat,
    v0: SpecValue,
    v1: SpecValue,
    fuel: nat,
) -> Option<bool>
    decreases fuel,
{
    if fuel == 0 {
        Option::None
    } else {
        let f = (fuel - 1) as nat;
        match (v0, v1) {
            (SpecValue::Stuck(h0, sp0), SpecValue::Stuck(h1, sp1)) => spec_is_equal_stuck(
                g,
                size,
                h0,
                sp0,
                h1,
                sp1,
                f,
            ),
            (SpecValue::Unstuck(h0, sp0, l0), SpecValue::Unstuck(h1, sp1, l1)) => match
                spec_is_equal_stuck(g, size, h0, sp0, h1, sp1, f) {
                Option::None => Option::None,
                Option::Some(true) => Option::Some(true),
                Option::Some(false) => match spec_force(g, *l0, f) {
                    Option::None => Option::None,
                    Option::Some(w0) => match spec_force(g, *l1, f) {
                        Option::None => Option::None,
                        Option::Some(w1) => spec_is_subtype(g, size, w0, w1, f),
                    },
                },
            },
            (SpecValue::Unstuck(_h0, _sp0, l0), w1) => match spec_force(g, *l0, f) {
                Option::None => Option::None,
                Option::Some(w0) => spec_is_subtype(g, size, w0, w1, f),
            },
            (w0, SpecValue::Unstuck(_h1, _sp1, l1)) => match spec_force(g, *l1, f) {
                Option::None => Option::None,
                Option::Some(w1) => spec_is_subtype(g, size, w0, w1, f),
            },
            (SpecValue::TypeType(a), SpecValue::TypeType(b)) => Option::Some(a <= b),
            (SpecValue::FunctionType(_n0, i0, c0), SpecValue::FunctionType(_n1, i1, c1)) => match
                spec_is_subtype(g, size, *i1, *i0, f) {
                Option::None => Option::None,
                Option::Some(false) => Option::Some(false),
                Option::Some(true) => if size < level_bound() {
                    let local = SpecValue::Stuck(SpecHead::Local(size), Seq::empty());
                    match spec_eval(g, c0.universe_offset, c0.locals.push(local), c0.term, f) {
                        Option::None => Option::None,
                        Option::Some(o0) => match spec_eval(
                            g,
                            c1.universe_offset,
                            c1.locals.push(local),
                            c1.term,
                            f,
                        ) {
                            Option::None => Option::None,
                            Option::Some(o1) => spec_is_subtype(g, size + 1, o0, o1, f),
                        },
                    }
                } else {
                    Option::None
                },
            },
            (SpecValue::RecordType(rc0), SpecValue::RecordType(rc1)) => if rc0.entries.len()
                == rc1.entries.len() {
                spec_is_subtype_record(
                    g,
                    size,
                    rc0.universe_offset,
                    rc0.locals,
                    rc0.entries,
                    rc1.universe_offset,
                    rc1.locals,
                    rc1.entries,
                    f,
                )
            } else {
                Option::Some(false)
            },
            (SpecValue::Error, _) => Option::Some(true),
            (_, SpecValue::Error) => Option::Some(true),
            _ => Option::Some(false),
        }
    }
}

/// Entry-by-entry covariant subtyping of two record type closures of equal
/// length.
pub open spec fn spec_is_subtype_record(
    g: SpecGlobals,
    size: nat,
    off0: nat,
    env0: Seq<SpecValue>,
    es0: Seq<(Seq<char>, SpecTerm)>,
    off1: nat,
    env1: Seq<SpecValue>,
    es1: Seq<(Seq<char>, SpecTerm)>,
    fuel: nat,
) -> Option<bool>
    decreases fuel,
{
    if fuel == 0 {
        Option::None
    } else if es0.len() != es1.len() {
        Option::Some(false)
    } else if es0.len() == 0 {
        Option::Some(true)
    } else if es0[0].0 != es1[0].0 {
        Option::Some(false)
    } else if size >= level_bound() {
        Option::None
    } else {
        let f = (fuel - 1) as nat;
        match spec_eval(g, off0, env0, es0[0].1, f) {
            Option::None => Option::None,
            Option::Some(e0) => match spec_eval(g, off1, env1, es1[0].1, f) {
                Option::None => Option::None,
                Option::Some(e1) => match spec_is_subtype(g, size, e0, e1, f) {
                    Option::None => Option::None,
                    Option::Some(false) => Option::Some(false),
                    Option::Some(true) => {
                        let local = SpecValue::Stuck(SpecHead::Local(size), Seq::empty());
                        spec_is_subtype_record(
                            g,
                            size + 1,
                            off0,
                            env0.push(local),
                            es0.skip(1),
                            off1,
                            env1.push(local),
                            es1.skip(1),
                            f,
                        )
                    },
                },
            },
        }
    }
}

// --- Executable conversion checking --------------------------------------

/// Head equality, executable form.
fn head_eq(h0: &Head, h1: &Head) -> (r: bool)
    ensures
        r == spec_head_eq(crate::value::head_view(*h0), crate::value::head_view(*h1)),
{
    match (h0, h1) {
        (Head::Global(n0, _o0), Head::Global(n1, _o1)) => n0.eq(n1),
        (Head::Local(l0), Head::Local(l1)) => *l0 == *l1,
        _ => false,
    }
}

/// Pairwise spine comparison from position `i` on.
fn spine_equal(
    globals: &Globals,
    local_size: usize,
    sp0: &Vec<Elim>,
    sp1: &Vec<Elim>,
    i: usize,
    fuel: u64,
) -> (r: Option<bool>)
    requires
        i <= sp0@.len(),
        i <= sp1@.len(),
        sp0@.len() == sp1@.len(),
    ensures
        r == spec_is_equal_spine(
            globals@,
            local_size as nat,
            elims_view(sp0@).skip(i as int),
            elims_view(sp1@).skip(i as int),
            fuel as nat,
        ),
    decreases fuel as nat, 0int,
{
    proof {
        lemma_elims_view(sp0@);
        lemma_elims_view(sp1@);
        if i < sp0@.len() {
            assert(elims_view(sp0@).skip(i + 1 as int) =~= elims_view(sp0@).skip(
                i as int,
            ).skip(1));
            assert(elims_view(sp1@).skip(i + 1 as int) =~= elims_view(sp1@).skip(
                i as int,
            ).skip(1));
        }
    }
    if fuel == 0 {
        Option::None
    } else if i == sp0.len() {
        proof {
            assert(elims_view(sp0@).skip(i as int) =~= Seq::empty());
            assert(elims_view(sp1@).skip(i as int) =~= Seq::empty());
        }
        Option::Some(true)
    } else {
        match (&sp0[i], &sp1[i]) {
            (Elim::Function(i0), Elim::Function(i1)) => {
                let r0 = i0.force(globals, fuel - 1);
                match r0 {
                    Option::None => Option::None,
                    Option::Some(v0) => {
                        let r1 = i1.force(globals, fuel - 1);
                        match r1 {
                            Option::None => Option::None,
                            Option::Some(v1) => {
                                match is_equal(globals, local_size, &v0, &v1, fuel - 1) {
                                    Option::None => Option::None,
                                    Option::Some(false) => Option::Some(false),
                                    Option::Some(true) => spine_equal(
                                        globals,
                                        local_size,
                                        sp0,
                                        sp1,
                                        i + 1,
                                        fuel - 1,
                                    ),
                                }
                            },
                        }
                    },
                }
            },
            (Elim::Record(l0), Elim::Record(l1)) => {
                if l0.eq(l1) {
                    spine_equal(globals, local_size, sp0, sp1, i + 1, fuel - 1)
                } else {
                    Option::Some(false)
                }
            },
            _ => Option::Some(false),
        }
    }
}

/// Equality of two stuck values.
fn is_equal_stuck(
    globals: &Globals,
    local_size: usize,
    h0: &Head,
    sp0: &Vec<Elim>,
    h1: &Head,
    sp1: &Vec<Elim>,
    fuel: u64,
) -> (r: Option<bool>)
    ensures
        r == spec_is_equal_stuck(
            globals@,
            local_size as nat,
            crate::value::head_view(*h0),
            elims_view(sp0@),
            crate::value::head_view(*h1),
            elims_view(sp1@),
            fuel as nat,
        ),
    decreases fuel as nat, 1int,
{
    proof {
        lemma_elims_view(sp0@);
        lemma_elims_view(sp1@);
    }
    if fuel == 0 {
        Option::None
    } else if !head_eq(h0, h1) || sp0.len() != sp1.len() {
        Option::Some(false)
    } else {
        proof {
            assert(elims_view(sp0@).skip(0) =~= elims_view(sp0@));
            assert(elims_view(sp1@).skip(0) =~= elims_view(sp1@));
        }
        spine_equal(globals, local_size, sp0, sp1, 0, fuel - 1)
    }
}

/// Decide definitional equality of two values, both evaluated against a
/// local environment of length `local_size`.
pub fn is_equal(
    globals: &Globals,
    local_size: usize,
    v0: &Value,
    v1: &Value,
    fuel: u64,
) -> (r: Option<bool>)
    ensures
        r == spec_is_equal(globals@, local_size as nat, v0@, v1@, fuel as nat),
    decreases fuel as nat, 2int,
{
    if fuel == 0 {
        return Option::None;
    }
    let ghost goal = spec_is_equal(globals@, local_size as nat, v0@, v1@, fuel as nat);
    match (v0, v1) {
        (Value::Stuck(h0, sp0), Value::Stuck(h1, sp1)) => {
            let r0 = is_equal_stuck(globals, local_size, h0, sp0, h1, sp1, fuel - 1);
            proof {
                assert(r0 == goal);
            }
            r0
        },
        (Value::Unstuck(h0, sp0, l0), Value::Unstuck(h1, sp1, l1)) => {
            let r1 = is_equal_stuck(globals, local_size, h0, sp0, h1, sp1, fuel - 1);
            let r0 = match r1 {
                Option::None => Option::None,
                Option::Some(true) => Option::Some(true),
                Option::Some(false) => match l0.force(globals, fuel - 1) {
                    Option::None => Option::None,
                    Option::Some(w0) => match l1.force(globals, fuel - 1) {
                        Option::None => Option::None,
                        Option::Some(w1) => is_equal(globals, local_size, &w0, &w1, fuel - 1),
                    },
                },
            };
            proof {
                assert(r0 == goal);
            }
            r0
        },
        (Value::Unstuck(_h0, _sp0, l0), w1) => {
            let r0 = match l0.force(globals, fuel - 1) {
                Option::None => Option::None,
                Option::Some(w0) => is_equal(globals, local_size, &w0, w1, fuel - 1),
            };
            proof {
                assert(r0 == goal);
            }
            r0
        },
        (w0, Value::Unstuck(_h1, _sp1, l1)) => {
            let r0 = match l1.force(globals, fuel - 1) {
                Option::None => Option::None,
                Option::Some(w1) => is_equal(globals, local_size, w0, &w1, fuel - 1),
            };
            proof {
                assert(r0 == goal);
            }
            r0
        },
        (Value::TypeType(a), Value::TypeType(b)) => {
            let r0 = Option::Some(*a == *b);
            proof {
                assert(r0 == goal);
            }
            r0
        },
        (Value::FunctionType(_n0, i0, c0), Value::FunctionType(_n1, i1, c1)) => {
            proof {
                assert(crate::value::fclosure_view(*c0).locals == c0.locals@);
                assert(crate::value::fclosure_view(*c1).locals == c1.locals@);
            }
            let r1 = is_equal(globals, local_size, i1, i0, fuel - 1);
            let r0 = match r1 {
                Option::None => Option::None,
                Option::Some(false) => Option::Some(false),
                Option::Some(true) => {
                    if local_size < usize::MAX {
                        proof {
                            assert(elims_view(Seq::<Elim>::empty()) == Seq::<SpecElim>::empty());
                        }
                        let mut env0 = c0.locals.duplicate();
                        env0.push(Rc::new(Value::Stuck(Head::Local(local_size), Vec::new())));
                        match eval_term(globals, c0.universe_offset, &env0, &c0.term, fuel - 1) {
                            Option::None => Option::None,
                            Option::Some(o0) => {
                                let mut env1 = c1.locals.duplicate();
                                env1.push(
                                    Rc::new(Value::Stuck(Head::Local(local_size), Vec::new())),
                                );
                                match eval_term(
                                    globals,
                                    c1.universe_offset,
                                    &env1,
                                    &c1.term,
                                    fuel - 1,
                                ) {
                                    Option::None => Option::None,
                                    Option::Some(o1) => is_equal(
                                        globals,
                                        local_size + 1,
                                        &o0,
                                        &o1,
                                        fuel - 1,
                                    ),
                                }
                            },
                        }
                    } else {
                        Option::None
                    }
                },
            };
            proof {
                assert(r0 == goal);
            }
            r0
        },
        (Value::FunctionTerm(_n0, c0), Value::FunctionTerm(_n1, c1)) => {
            proof {
                assert(crate::value::fclosure_view(*c0).locals == c0.locals@);
                assert(crate::value::fclosure_view(*c1).locals == c1.locals@);
            }
            let r0 = if local_size < usize::MAX {
                proof {
                    assert(elims_view(Seq::<Elim>::empty()) == Seq::<SpecElim>::empty());
                }
                let mut env0 = c0.locals.duplicate();
                env0.push(Rc::new(Value::Stuck(Head::Local(local_size), Vec::new())));
                match eval_term(globals, c0.universe_offset, &env0, &c0.term, fuel - 1) {
                    Option::None => Option::None,
                    Option::Some(o0) => {
                        let mut env1 = c1.locals.duplicate();
                        env1.push(Rc::new(Value::Stuck(Head::Local(local_size), Vec::new())));
                        match eval_term(globals, c1.universe_offset, &env1, &c1.term, fuel - 1) {
                            Option::None => Option::None,
                            Option::Some(o1) => is_equal(
                                globals,
                                local_size + 1,
                                &o0,
                                &o1,
                                fuel - 1,
                            ),
                        }
                    },
                }
            } else {
                Option::None
            };
            proof {
                assert(r0 == goal);
            }
            r0
        },
        (Value::RecordType(rc0), Value::RecordType(rc1)) => {
            proof {
                assert(crate::value::rclosure_view(*rc0).locals == rc0.locals@);
                assert(crate::value::rclosure_view(*rc1).locals == rc1.locals@);
                lemma_entries_view(rc0.entries@);
                lemma_entries_view(rc1.entries@);
                assert(entries_view(rc0.entries@).skip(0) =~= entries_view(rc0.entries@));
                assert(entries_view(rc1.entries@).skip(0) =~= entries_view(rc1.entries@));
            }
            let r0 = if rc0.entries.len() == rc1.entries.len() {
                record_equal(
                    globals,
                    local_size,
                    rc0.universe_offset,
                    rc0.locals.duplicate(),
                    &rc0.entries,
                    rc1.universe_offset,
                    rc1.locals.duplicate(),
                    &rc1.entries,
                    0,
                    fuel - 1,
                )
            } else {
                Option::Some(false)
            };
            proof {
                assert(r0 == goal);
            }
            r0
        },
        (Value::RecordTerm(rc0), Value::RecordTerm(rc1)) => {
            proof {
                assert(crate::value::rclosure_view(*rc0).locals == rc0.locals@);
                assert(crate::value::rclosure_view(*rc1).locals == rc1.locals@);
                lemma_entries_view(rc0.entries@);
                lemma_entries_view(rc1.entries@);
                assert(entries_view(rc0.entries@).skip(0) =~= entries_view(rc0.entries@));
                assert(entries_view(rc1.entries@).skip(0) =~= entries_view(rc1.entries@));
            }
            let r0 = if rc0.entries.len() == rc1.entries.len() {
                record_equal(
                    globals,
                    local_size,
                    rc0.universe_offset,
                    rc0.locals.duplicate(),
                    &rc0.entries,
                    rc1.universe_offset,
                    rc1.locals.duplicate(),
                    &rc1.entries,
                    0,
                    fuel - 1,
                )
            } else {
                Option::Some(false)
            };
            proof {
                assert(r0 == goal);
            }
            r0
        },
        (Value::Sequence(vs0), Value::Sequence(vs1)) => {
            proof {
                lemma_values_view(vs0@);
                lemma_values_view(vs1@);
                assert(values_view(vs0@).skip(0) =~= values_view(vs0@));
                assert(values_view(vs1@).skip(0) =~= values_view(vs1@));
            }
            let r0 = if vs0.len() == vs1.len() {
                values_equal(globals, local_size, vs0, vs1, 0, fuel - 1)
            } else {
                Option::Some(false)
            };
            proof {
                assert(r0 == goal);
            }
            r0
        },
        (Value::Constant(a), Value::Constant(b)) => {
            let r0 = Option::Some(a.bitwise_eq(b));
            proof {
                assert(r0 == goal);
            }
            r0
        },
        (Value::Error, _) => {
            let r0 = Option::Some(true);
            proof {
                assert(r0 == goal);
            }
            r0
        },
        (_, Value::Error) => {
            let r0 = Option::Some(true);
            proof {
                assert(r0 == goal);
            }
            r0
        },
        _ => {
            let r0 = Option::Some(false);
            proof {
                assert(r0 == goal);
            }
            r0
        },
    }
}

/// Entry-by-entry record comparison from position `i` on, for equality.
fn record_equal(
    globals: &Globals,
    local_size: usize,
    off0: usize,
    env0: Locals,
    es0: &Vec<(String, Rc<Term>)>,
    off1: usize,
    env1: Locals,
    es1: &Vec<(String, Rc<Term>)>,
    i: usize,
    fuel: u64,
) -> (r: Option<bool>)
    requires
        i <= es0@.len(),
        es0@.len() == es1@.len(),
    ensures
        r == spec_is_equal_record(
            globals@,
            local_size as nat,
            off0 as nat,
            env0@,
            entries_view(es0@).skip(i as int),
            off1 as nat,
            env1@,
            entries_view(es1@).skip(i as int),
            fuel as nat,
        ),
    decreases fuel as nat, 0int,
{
    proof {
        lemma_entries_view(es0@);
        lemma_entries_view(es1@);
        if i < es0@.len() {
            assert(entries_view(es0@).skip(i + 1 as int) =~= entries_view(es0@).skip(
                i as int,
            ).skip(1));
            assert(entries_view(es1@).skip(i + 1 as int) =~= entries_view(es1@).skip(
                i as int,
            ).skip(1));
        }
    }
    if fuel == 0 {
        Option::None
    } else if i == es0.len() {
        proof {
            assert(entries_view(es0@).skip(i as int) =~= Seq::empty());
            assert(entries_view(es1@).skip(i as int) =~= Seq::empty());
        }
        Option::Some(true)
    } else if !es0[i].0.eq(&es1[i].0) {
        Option::Some(false)
    } else if local_size == usize::MAX {
        Option::None
    } else {
        match eval_term(globals, off0, &env0, &es0[i].1, fuel - 1) {
            Option::None => Option::None,
            Option::Some(e0) => match eval_term(globals, off1, &env1, &es1[i].1, fuel - 1) {
                Option::None => Option::None,
                Option::Some(e1) => match is_equal(globals, local_size, &e0, &e1, fuel - 1) {
                    Option::None => Option::None,
                    Option::Some(false) => Option::Some(false),
                    Option::Some(true) => {
                        proof {
                            assert(elims_view(Seq::<Elim>::empty()) == Seq::<SpecElim>::empty());
                        }
                        let mut env0b = env0;
                        env0b.push(Rc::new(Value::Stuck(Head::Local(local_size), Vec::new())));
                        let mut env1b = env1;
                        env1b.push(Rc::new(Value::Stuck(Head::Local(local_size), Vec::new())));
                        record_equal(
                            globals,
                            local_size + 1,
                            off0,
                            env0b,
                            es0,
                            off1,
                            env1b,
                            es1,
                            i + 1,
                            fuel - 1,
                        )
                    },
                },
            },
        }
    }
}

/// Pointwise comparison of two value lists from position `i` on.
fn values_equal(
    globals: &Globals,
    local_size: usize,
    vs0: &Vec<Rc<Value>>,
    vs1: &Vec<Rc<Value>>,
    i: usize,
    fuel: u64,
) -> (r: Option<bool>)
    requires
        i <= vs0@.len(),
        vs0@.len() == vs1@.len(),
    ensures
        r == spec_is_equal_values(
            globals@,
            local_size as nat,
            values_view(vs0@).skip(i as int),
            values_view(vs1@).skip(i as int),
            fuel as nat,
        ),
    decreases fuel as nat, 0int,
{
    proof {
        lemma_values_view(vs0@);
        lemma_values_view(vs1@);
        if i < vs0@.len() {
            assert(values_view(vs0@).skip(i + 1 as int) =~= values_view(vs0@).skip(
                i as int,
            ).skip(1));
            assert(values_view(vs1@).skip(i + 1 as int) =~= values_view(vs1@).skip(
                i as int,
            ).skip(1));
        }
    }
    if fuel == 0 {
        Option::None
    } else if i == vs0.len() {
        proof {
            assert(values_view(vs0@).skip(i as int) =~= Seq::empty());
            assert(values_view(vs1@).skip(i as int) =~= Seq::empty());
        }
        Option::Some(true)
    } else {
        match is_equal(globals, local_size, &vs0[i], &vs1[i], fuel - 1) {
            Option::None => Option::None,
            Option::Some(false) => Option::Some(false),
            Option::Some(true) => values_equal(globals, local_size, vs0, vs1, i + 1, fuel - 1),
        }
    }
}

/// Decide cumulative subtyping between two type values; non-type values are
/// never subtypes.
pub fn is_subtype(
    globals: &Globals,
    local_size: usize,
    v0: &Value,
    v1: &Value,
    fuel: u64,
) -> (r: Option<bool>)
    ensures
        r == spec_is_subtype(globals@, local_size as nat, v0@, v1@, fuel as nat),
    decreases fuel as nat, 2int,
{
    if fuel == 0 {
        return Option::None;
    }
    let ghost goal = spec_is_subtype(globals@, local_size as nat, v0@, v1@, fuel as nat);
    match (v0, v1) {
        (Value::Stuck(h0, sp0), Value::Stuck(h1, sp1)) => {
            let r0 = is_equal_stuck(globals, local_size, h0, sp0, h1, sp1, fuel - 1);
            proof {
                assert(r0 == goal);
            }
            r0
        },
        (Value::Unstuck(h0, sp0, l0), Value::Unstuck(h1, sp1, l1)) => {
            let r1 = is_equal_stuck(globals, local_size, h0, sp0, h1, sp1, fuel - 1);
            let r0 = match r1 {
                Option::None => Option::None,
                Option::Some(true) => Option::Some(true),
                Option::Some(false) => match l0.force(globals, fuel - 1) {
                    Option::None => Option::None,
                    Option::Some(w0) => match l1.force(globals, fuel - 1) {
                        Option::None => Option::None,
                        Option::Some(w1) => is_subtype(globals, local_size, &w0, &w1, fuel - 1),
                    },
                },
            };
            proof {
                assert(r0 == goal);
            }
            r0
        },
        (Value::Unstuck(_h0, _sp0, l0), w1) => {
            let r0 = match l0.force(globals, fuel - 1) {
                Option::None => Option::None,
                Option::Some(w0) => is_subtype(globals, local_size, &w0, w1, fuel - 1),
            };
            proof {
                assert(r0 == goal);
            }
            r0
        },
        (w0, Value::Unstuck(_h1, _sp1, l1)) => {
            let r0 = match l1.force(globals, fuel - 1) {
                Option::None => Option::None,
                Option::Some(w1) => is_subtype(globals, local_size, w0, &w1, fuel - 1),
            };
            proof {
                assert(r0 == goal);
            }
            r0
        },
        (Value::TypeType(a), Value::TypeType(b)) => {
            let r0 = Option::Some(*a <= *b);
            proof {
                assert(r0 == goal);
            }
            r0
        },
        (Value::FunctionType(_n0, i0, c0), Value::FunctionType(_n1, i1, c1)) => {
            proof {
                assert(crate::value::fclosure_view(*c0).locals == c0.locals@);
                assert(crate::value::fclosure_view(*c1).locals == c1.locals@);
            }
            let r1 = is_subtype(globals, local_size, i1, i0, fuel - 1);
            let r0 = match r1 {
                Option::None => Option::None,
                Option::Some(false) => Option::Some(false),
                Option::Some(true) => {
                    if local_size < usize::MAX {
                        proof {
                            assert(elims_view(Seq::<Elim>::empty()) == Seq::<SpecElim>::empty());
                        }
                        let mut env0 = c0.locals.duplicate();
                        env0.push(Rc::new(Value::Stuck(Head::Local(local_size), Vec::new())));
                        match eval_term(globals, c0.universe_offset, &env0, &c0.term, fuel - 1) {
                            Option::None => Option::None,
                            Option::Some(o0) => {
                                let mut env1 = c1.locals.duplicate();
                                env1.push(
                                    Rc::new(Value::Stuck(Head::Local(local_size), Vec::new())),
                                );
                                match eval_term(
                                    globals,
                                    c1.universe_offset,
                                    &env1,
                                    &c1.term,
                                    fuel - 1,
                                ) {
                                    Option::None => Option::None,
                                    Option::Some(o1) => is_subtype(
                                        globals,
                                        local_size + 1,
                                        &o0,
                                        &o1,
                                        fuel - 1,
                                    ),
                                }
                            },
                        }
                    } else {
                        Option::None
                    }
                },
            };
            proof {
                assert(r0 == goal);
            }
            r0
        },
        (Value::RecordType(rc0), Value::RecordType(rc1)) => {
            proof {
                assert(crate::value::rclosure_view(*rc0).locals == rc0.locals@);
                assert(crate::value::rclosure_view(*rc1).locals == rc1.locals@);
                lemma_entries_view(rc0.entries@);
                lemma_entries_view(rc1.entries@);
                assert(entries_view(rc0.entries@).skip(0) =~= entries_view(rc0.entries@));
                assert(entries_view(rc1.entries@).skip(0) =~= entries_view(rc1.entries@));
            }
            let r0 = if rc0.entries.len() == rc1.entries.len() {
                record_subtype(
                    globals,
                    local_size,
                    rc0.universe_offset,
                    rc0.locals.duplicate(),
                    &rc0.entries,
                    rc1.universe_offset,
                    rc1.locals.duplicate(),
                    &rc1.entries,
                    0,
                    fuel - 1,
                )
            } else {
                Option::Some(false)
            };
            proof {
                assert(r0 == goal);
            }
            r0
        },
        (Value::Error, _) => {
            let r0 = Option::Some(true);
            proof {
                assert(r0 == goal);
            }
            r0
        },
        (_, Value::Error) => {
            let r0 = Option::Some(true);
            proof {
                assert(r0 == goal);
            }
            r0
        },
        _ => {
            let r0 = Option::Some(false);
            proof {
                assert(r0 == goal);
            }
            r0
        },
    }
}

/// Entry-by-entry record comparison from position `i` on, for subtyping.
fn record_subtype(
    globals: &Globals,
    local_size: usize,
    off0: usize,
    env0: Locals,
    es0: &Vec<(String, Rc<Term>)>,
    off1: usize,
    env1: Locals,
    es1: &Vec<(String, Rc<Term>)>,
    i: usize,
    fuel: u64,
) -> (r: Option<bool>)
    requires
        i <= es0@.len(),
        es0@.len() == es1@.len(),
    ensures
        r == spec_is_subtype_record(
            globals@,
            local_size as nat,
            off0 as nat,
            env0@,
            entries_view(es0@).skip(i as int),
            off1 as nat,
            env1@,
            entries_view(es1@).skip(i as int),
            fuel as nat,
        ),
    decreases fuel as nat, 0int,
{
    proof {
        lemma_entries_view(es0@);
        lemma_entries_view(es1@);
        if i < es0@.len() {
            assert(entries_view(es0@).skip(i + 1 as int) =~= entries_view(es0@).skip(
                i as int,
            ).skip(1));
            assert(entries_view(es1@).skip(i + 1 as int) =~= entries_view(es1@).skip(
                i as int,
            ).skip(1));
        }
    }
    if fuel == 0 {
        Option::None
    } else if i == es0.len() {
        proof {
            assert(entries_view(es0@).skip(i as int) =~= Seq::empty());
            assert(entries_view(es1@).skip(i as int) =~= Seq::empty());
        }
        Option::Some(true)
    } else if !es0[i].0.eq(&es1[i].0) {
        Option::Some(false)
    } else if local_size == usize::MAX {
        Option::None
    } else {
        match eval_term(globals, off0, &env0, &es0[i].1, fuel - 1) {
            Option::None => Option::None,
            Option::Some(e0) => match eval_term(globals, off1, &env1, &es1[i].1, fuel - 1) {
                Option::None => Option::None,
                Option::Some(e1) => match is_subtype(globals, local_size, &e0, &e1, fuel - 1) {
                    Option::None => Option::None,
                    Option::Some(false) => Option::Some(false),
                    Option::Some(true) => {
                        proof {
                            assert(elims_view(Seq::<Elim>::empty()) == Seq::<SpecElim>::empty());
                        }
                        let mut env0b = env0;
                        env0b.push(Rc::new(Value::Stuck(Head::Local(local_size), Vec::new())));
                        let mut env1b = env1;
                        env1b.push(Rc::new(Value::Stuck(Head::Local(local_size), Vec::new())));
                        record_subtype(
                            globals,
                            local_size + 1,
                            off0,
                            env0b,
                            es0,
                            off1,
                            env1b,
                            es1,
                            i + 1,
                            fuel - 1,
                        )
                    },
                },
            },
        }
    }
}

} // verus!
