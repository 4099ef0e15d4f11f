//! The mathematical model of evaluation.
//!
//! These spec functions define what evaluation *means*: each executable
//! operation of the kernel is proved to return exactly what its model
//! returns. Because evaluation of arbitrary ill-typed terms need not
//! terminate, every function here consumes an explicit fuel bound; `None`
//! means the fuel ran out, and is distinct from the `Error` sentinel, which
//! models ill-formed input.
//!
//! Universe arithmetic that would overflow the machine word yields `Error`,
//! as does a de Bruijn index that escapes its environment, projection of an
//! absent label, and elimination of a value of the wrong shape.

use vstd::prelude::*;

use crate::term::SpecTerm;
use crate::value::SpecClosure;
use crate::value::SpecElim;
use crate::value::SpecGlobals;
use crate::value::SpecHead;
use crate::value::SpecLazy;
use crate::value::SpecRecordClosure;
use crate::value::SpecValue;
use crate::value::spec_globals_get;
use crate::value::spec_locals_get;

verus! {

/// The largest universe level or offset the kernel can represent; arithmetic
/// past it yields `Error`.
pub open spec fn level_bound() -> nat {
    usize::MAX as nat
}

/// Evaluate a term to weak-head normal form under a global environment, a
/// universe offset and a local environment.
pub open spec fn spec_eval(
    g: SpecGlobals,
    off: nat,
    env: Seq<SpecValue>,
    t: SpecTerm,
    fuel: nat,
) -> Option<SpecValue>
    decreases fuel,
{
    if fuel == 0 {
        Option::None
    } else {
        let f = (fuel - 1) as nat;
        match t {
            SpecTerm::Global(n) => match spec_globals_get(g, n) {
                Option::Some((_ty, Option::Some(d))) => Option::Some(
                    SpecValue::Unstuck(
                        SpecHead::Global(n, off),
                        Seq::empty(),
                        Box::new(SpecLazy::EvalTerm(off, env, Box::new(d))),
                    ),
                ),
                _ => Option::Some(SpecValue::Stuck(SpecHead::Global(n, off), Seq::empty())),
            },
            SpecTerm::Local(i) => match spec_locals_get(env, i) {
                Option::Some(v) => Option::Some(v),
                Option::None => Option::Some(SpecValue::Error),
            },
            SpecTerm::Ann(t1, _ty) => spec_eval(g, off, env, *t1, f),
            SpecTerm::TypeType(l) => if l + off <= level_bound() {
                Option::Some(SpecValue::TypeType(l + off))
            } else {
                Option::Some(SpecValue::Error)
            },
            SpecTerm::Lift(t1, k) => if off + k <= level_bound() {
                spec_eval(g, off + k, env, *t1, f)
            } else {
                Option::Some(SpecValue::Error)
            },
            SpecTerm::FunctionType(n, i, o) => match spec_eval(g, off, env, *i, f) {
                Option::None => Option::None,
                Option::Some(iv) => Option::Some(
                    SpecValue::FunctionType(
                        n,
                        Box::new(iv),
                        SpecClosure { universe_offset: off, locals: env, term: *o },
                    ),
                ),
            },
            SpecTerm::FunctionTerm(n, b) => Option::Some(
                SpecValue::FunctionTerm(
                    n,
                    SpecClosure { universe_offset: off, locals: env, term: *b },
                ),
            ),
            SpecTerm::FunctionElim(h, a) => match spec_eval(g, off, env, *h, f) {
                Option::None => Option::None,
                Option::Some(hv) => spec_apply_function(
                    g,
                    hv,
                    SpecLazy::EvalTerm(off, env, a),
                    f,
                ),
            },
            SpecTerm::RecordType(es) => Option::Some(
                SpecValue::RecordType(
                    SpecRecordClosure { universe_offset: off, locals: env, entries: es },
                ),
            ),
            SpecTerm::RecordTerm(es) => Option::Some(
                SpecValue::RecordTerm(
                    SpecRecordClosure { universe_offset: off, locals: env, entries: es },
                ),
            ),
            SpecTerm::RecordElim(h, l) => match spec_eval(g, off, env, *h, f) {
                Option::None => Option::None,
                Option::Some(hv) => spec_apply_record(g, hv, l, f),
            },
            SpecTerm::Sequence(ts) => match spec_eval_sequence(g, off, env, ts, f) {
                Option::None => Option::None,
                Option::Some(vs) => Option::Some(SpecValue::Sequence(vs)),
            },
            SpecTerm::Constant(c) => Option::Some(SpecValue::Constant(c)),
            SpecTerm::Error => Option::Some(SpecValue::Error),
        }
    }
}

/// Evaluate each entry of a sequence literal, left to right.
pub open spec fn spec_eval_sequence(
    g: SpecGlobals,
    off: nat,
    env: Seq<SpecValue>,
    ts: Seq<SpecTerm>,
    fuel: nat,
) -> Option<Seq<SpecValue>>
    decreases fuel,
{
    if fuel == 0 {
        Option::None
    } else if ts.len() == 0 {
        Option::Some(Seq::empty())
    } else {
        let f = (fuel - 1) as nat;
        match spec_eval(g, off, env, ts[0], f) {
            Option::None => Option::None,
            Option::Some(v) => match spec_eval_sequence(g, off, env, ts.skip(1), f) {
                Option::None => Option::None,
                Option::Some(rest) => Option::Some(seq![v] + rest),
            },
        }
    }
}

/// Apply a function eliminator to a head value.
///
/// A stuck or unstuck head grows its spine (and, when unstuck, wraps its
/// payload to match, preserving glued coherence); a function abstraction
/// forces the argument and enters its closure; anything else is `Error`.
pub open spec fn spec_apply_function(
    g: SpecGlobals,
    head: SpecValue,
    input: SpecLazy,
    fuel: nat,
) -> Option<SpecValue>
    decreases fuel,
{
    if fuel == 0 {
        Option::None
    } else {
        let f = (fuel - 1) as nat;
        match head {
            SpecValue::Stuck(h, sp) => Option::Some(
                SpecValue::Stuck(h, sp.push(SpecElim::Function(Box::new(input)))),
            ),
            SpecValue::Unstuck(h, sp, lz) => Option::Some(
                SpecValue::Unstuck(
                    h,
                    sp.push(SpecElim::Function(Box::new(input))),
                    Box::new(
                        SpecLazy::ApplyElim(lz, Box::new(SpecElim::Function(Box::new(input)))),
                    ),
                ),
            ),
            SpecValue::FunctionTerm(_n, c) => match spec_force(g, input, f) {
                Option::None => Option::None,
                Option::Some(v) => spec_eval(
                    g,
                    c.universe_offset,
                    c.locals.push(v),
                    c.term,
                    f,
                ),
            },
            _ => Option::Some(SpecValue::Error),
        }
    }
}

/// Apply a record projection to a head value.
pub open spec fn spec_apply_record(
    g: SpecGlobals,
    head: SpecValue,
    label: Seq<char>,
    fuel: nat,
) -> Option<SpecValue>
    decreases fuel,
{
    if fuel == 0 {
        Option::None
    } else {
        let f = (fuel - 1) as nat;
        match head {
            SpecValue::Stuck(h, sp) => Option::Some(
                SpecValue::Stuck(h, sp.push(SpecElim::Record(label))),
            ),
            SpecValue::Unstuck(h, sp, lz) => Option::Some(
                SpecValue::Unstuck(
                    h,
                    sp.push(SpecElim::Record(label)),
                    Box::new(SpecLazy::ApplyElim(lz, Box::new(SpecElim::Record(label)))),
                ),
            ),
            SpecValue::RecordTerm(rc) => spec_record_project(
                g,
                rc.universe_offset,
                rc.locals,
                rc.entries,
                label,
                f,
            ),
            _ => Option::Some(SpecValue::Error),
        }
    }
}

/// Project a label out of a record introduction: entries are evaluated in
/// order, each extending the environment seen by the later ones, until the
/// label matches; an absent label is `Error`.
pub open spec fn spec_record_project(
    g: SpecGlobals,
    off: nat,
    env: Seq<SpecValue>,
    entries: Seq<(Seq<char>, SpecTerm)>,
    label: Seq<char>,
    fuel: nat,
) -> Option<SpecValue>
    decreases fuel,
{
    if fuel == 0 {
        Option::None
    } else if entries.len() == 0 {
        Option::Some(SpecValue::Error)
    } else {
        let f = (fuel - 1) as nat;
        match spec_eval(g, off, env, entries[0].1, f) {
            Option::None => Option::None,
            Option::Some(v) => if entries[0].0 == label {
                Option::Some(v)
            } else {
                spec_record_project(g, off, env.push(v), entries.skip(1), label, f)
            },
        }
    }
}

/// Force a suspended computation to a weak-head value.
pub open spec fn spec_force(g: SpecGlobals, lz: SpecLazy, fuel: nat) -> Option<SpecValue>
    decreases fuel,
{
    if fuel == 0 {
        Option::None
    } else {
        let f = (fuel - 1) as nat;
        match lz {
            SpecLazy::Done(v) => Option::Some(*v),
            SpecLazy::EvalTerm(off, env, t) => spec_eval(g, off, env, *t, f),
            SpecLazy::ApplyElim(inner, e) => match spec_force(g, *inner, f) {
                Option::None => Option::None,
                Option::Some(h) => match *e {
                    SpecElim::Function(input) => spec_apply_function(g, h, *input, f),
                    SpecElim::Record(l) => spec_apply_record(g, h, l, f),
                },
            },
        }
    }
}

/// Force through unstuck values until the result is no longer unstuck.
pub open spec fn spec_force_value(g: SpecGlobals, v: SpecValue, fuel: nat) -> Option<SpecValue>
    decreases fuel,
{
    if fuel == 0 {
        Option::None
    } else {
        let f = (fuel - 1) as nat;
        match v {
            SpecValue::Unstuck(_h, _sp, lz) => match spec_force(g, *lz, f) {
                Option::None => Option::None,
                Option::Some(w) => spec_force_value(g, w, f),
            },
            _ => Option::Some(v),
        }
    }
}

/// Find the value of a label among record entries: entries are evaluated
/// in order, each extending the environment seen by the later ones; the
/// inner `None` reports an absent label.
pub open spec fn spec_record_find(
    g: SpecGlobals,
    off: nat,
    env: Seq<SpecValue>,
    entries: Seq<(Seq<char>, SpecTerm)>,
    label: Seq<char>,
    fuel: nat,
) -> Option<Option<SpecValue>>
    decreases fuel,
{
    if fuel == 0 {
        Option::None
    } else if entries.len() == 0 {
        Option::Some(Option::None)
    } else {
        let f = (fuel - 1) as nat;
        match spec_eval(g, off, env, entries[0].1, f) {
            Option::None => Option::None,
            Option::Some(v) => if entries[0].0 == label {
                Option::Some(Option::Some(v))
            } else {
                spec_record_find(g, off, env.push(v), entries.skip(1), label, f)
            },
        }
    }
}

/// The type of a label in a record type, with earlier fields substituted by
/// their projections from the head value; the inner `None` means the label
/// is absent.
pub open spec fn spec_record_elim_type(
    g: SpecGlobals,
    head: SpecValue,
    off: nat,
    env: Seq<SpecValue>,
    entries: Seq<(Seq<char>, SpecTerm)>,
    label: Seq<char>,
    fuel: nat,
) -> Option<Option<SpecValue>>
    decreases fuel,
{
    if fuel == 0 {
        Option::None
    } else if entries.len() == 0 {
        Option::Some(Option::None)
    } else {
        let f = (fuel - 1) as nat;
        match spec_eval(g, off, env, entries[0].1, f) {
            Option::None => Option::None,
            Option::Some(tv) => if entries[0].0 == label {
                Option::Some(Option::Some(tv))
            } else {
                match spec_apply_record(g, head, entries[0].0, f) {
                    Option::None => Option::None,
                    Option::Some(pv) => spec_record_elim_type(
                        g,
                        head,
                        off,
                        env.push(pv),
                        entries.skip(1),
                        label,
                        f,
                    ),
                }
            },
        }
    }
}

} // verus!
