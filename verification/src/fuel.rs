//! Fuel monotonicity: the fuel bound never changes an answer.
//!
//! Every function of the model takes a fuel bound and reports `None` when
//! it runs out. These lemmas show that fuel is only a bound: once any
//! amount of fuel suffices for an answer, every larger amount gives the
//! same answer. The bound therefore never influences *what* the kernel
//! computes, only *whether* the computation completes.

use vstd::prelude::*;

use crate::conv::spec_is_equal;
use crate::conv::spec_is_equal_record;
use crate::conv::spec_is_equal_spine;
use crate::conv::spec_is_equal_stuck;
use crate::conv::spec_is_equal_values;
use crate::conv::spec_is_subtype;
use crate::conv::spec_is_subtype_record;
use crate::readback::spec_head_term;
use crate::readback::spec_read_back;
use crate::readback::spec_read_back_record;
use crate::readback::spec_read_back_spine;
use crate::readback::spec_read_back_stuck;
use crate::readback::spec_read_back_values;
use crate::value::SpecHead;
use crate::value::Unfold;
use crate::semantics::level_bound;
use crate::semantics::spec_apply_function;
use crate::semantics::spec_apply_record;
use crate::semantics::spec_eval;
use crate::semantics::spec_eval_sequence;
use crate::semantics::spec_force;
use crate::semantics::spec_force_value;
use crate::semantics::spec_record_project;
use crate::term::SpecTerm;
use crate::value::SpecElim;
use crate::value::SpecGlobals;
use crate::value::SpecLazy;
use crate::value::SpecValue;
use crate::value::spec_globals_get;

verus! {

/// Evaluation is fuel-monotone: an answer found with little fuel is the
/// answer found with any more.
pub proof fn lemma_eval_mono(
    g: SpecGlobals,
    off: nat,
    env: Seq<SpecValue>,
    t: SpecTerm,
    f1: nat,
    f2: nat,
)
    requires
        f1 <= f2,
        spec_eval(g, off, env, t, f1) is Some,
    ensures
        spec_eval(g, off, env, t, f2) == spec_eval(g, off, env, t, f1),
    decreases f1, 1int,
{
    if f1 == 0 {
        return;
    }
    let g1 = (f1 - 1) as nat;
    let g2 = (f2 - 1) as nat;
    match t {
        SpecTerm::Ann(t1, _ty) => {
            lemma_eval_mono(g, off, env, *t1, g1, g2);
        },
        SpecTerm::Lift(t1, k) => {
            if off + k <= level_bound() {
                lemma_eval_mono(g, off + k, env, *t1, g1, g2);
            }
        },
        SpecTerm::FunctionType(_n, i, _o) => {
            lemma_eval_mono(g, off, env, *i, g1, g2);
        },
        SpecTerm::FunctionElim(h, a) => {
            lemma_eval_mono(g, off, env, *h, g1, g2);
            match spec_eval(g, off, env, *h, g1) {
                Option::Some(hv) => {
                    lemma_apply_function_mono(g, hv, SpecLazy::EvalTerm(off, env, a), g1, g2);
                },
                Option::None => {},
            }
        },
        SpecTerm::RecordElim(h, l) => {
            lemma_eval_mono(g, off, env, *h, g1, g2);
            match spec_eval(g, off, env, *h, g1) {
                Option::Some(hv) => {
                    lemma_apply_record_mono(g, hv, l, g1, g2);
                },
                Option::None => {},
            }
        },
        SpecTerm::Sequence(ts) => {
            lemma_eval_sequence_mono(g, off, env, ts, g1, g2);
        },
        _ => {},
    }
}

/// Sequence evaluation is fuel-monotone.
pub proof fn lemma_eval_sequence_mono(
    g: SpecGlobals,
    off: nat,
    env: Seq<SpecValue>,
    ts: Seq<SpecTerm>,
    f1: nat,
    f2: nat,
)
    requires
        f1 <= f2,
        spec_eval_sequence(g, off, env, ts, f1) is Some,
    ensures
        spec_eval_sequence(g, off, env, ts, f2) == spec_eval_sequence(g, off, env, ts, f1),
    decreases f1, 0int,
{
    if f1 == 0 || ts.len() == 0 {
        return;
    }
    let g1 = (f1 - 1) as nat;
    let g2 = (f2 - 1) as nat;
    lemma_eval_mono(g, off, env, ts[0], g1, g2);
    match spec_eval(g, off, env, ts[0], g1) {
        Option::Some(_v) => {
            lemma_eval_sequence_mono(g, off, env, ts.skip(1), g1, g2);
        },
        Option::None => {},
    }
}

/// Function elimination is fuel-monotone.
pub proof fn lemma_apply_function_mono(
    g: SpecGlobals,
    head: SpecValue,
    input: SpecLazy,
    f1: nat,
    f2: nat,
)
    requires
        f1 <= f2,
        spec_apply_function(g, head, input, f1) is Some,
    ensures
        spec_apply_function(g, head, input, f2) == spec_apply_function(g, head, input, f1),
    decreases f1, 0int,
{
    if f1 == 0 {
        return;
    }
    let g1 = (f1 - 1) as nat;
    let g2 = (f2 - 1) as nat;
    match head {
        SpecValue::FunctionTerm(_n, c) => {
            lemma_force_mono(g, input, g1, g2);
            match spec_force(g, input, g1) {
                Option::Some(v) => {
                    lemma_eval_mono(g, c.universe_offset, c.locals.push(v), c.term, g1, g2);
                },
                Option::None => {},
            }
        },
        _ => {},
    }
}

/// Record projection is fuel-monotone.
pub proof fn lemma_apply_record_mono(
    g: SpecGlobals,
    head: SpecValue,
    label: Seq<char>,
    f1: nat,
    f2: nat,
)
    requires
        f1 <= f2,
        spec_apply_record(g, head, label, f1) is Some,
    ensures
        spec_apply_record(g, head, label, f2) == spec_apply_record(g, head, label, f1),
    decreases f1, 0int,
{
    if f1 == 0 {
        return;
    }
    let g1 = (f1 - 1) as nat;
    let g2 = (f2 - 1) as nat;
    match head {
        SpecValue::RecordTerm(rc) => {
            lemma_record_project_mono(
                g,
                rc.universe_offset,
                rc.locals,
                rc.entries,
                label,
                g1,
                g2,
            );
        },
        _ => {},
    }
}

/// Record projection over entries is fuel-monotone.
pub proof fn lemma_record_project_mono(
    g: SpecGlobals,
    off: nat,
    env: Seq<SpecValue>,
    entries: Seq<(Seq<char>, SpecTerm)>,
    label: Seq<char>,
    f1: nat,
    f2: nat,
)
    requires
        f1 <= f2,
        spec_record_project(g, off, env, entries, label, f1) is Some,
    ensures
        spec_record_project(g, off, env, entries, label, f2) == spec_record_project(
            g,
            off,
            env,
            entries,
            label,
            f1,
        ),
    decreases f1, 0int,
{
    if f1 == 0 || entries.len() == 0 {
        return;
    }
    let g1 = (f1 - 1) as nat;
    let g2 = (f2 - 1) as nat;
    lemma_eval_mono(g, off, env, entries[0].1, g1, g2);
    match spec_eval(g, off, env, entries[0].1, g1) {
        Option::Some(v) => {
            if entries[0].0 != label {
                lemma_record_project_mono(g, off, env.push(v), entries.skip(1), label, g1, g2);
            }
        },
        Option::None => {},
    }
}

/// Forcing is fuel-monotone.
pub proof fn lemma_force_mono(g: SpecGlobals, lz: SpecLazy, f1: nat, f2: nat)
    requires
        f1 <= f2,
        spec_force(g, lz, f1) is Some,
    ensures
        spec_force(g, lz, f2) == spec_force(g, lz, f1),
    decreases f1, 0int,
{
    if f1 == 0 {
        return;
    }
    let g1 = (f1 - 1) as nat;
    let g2 = (f2 - 1) as nat;
    match lz {
        SpecLazy::EvalTerm(off, env, t) => {
            lemma_eval_mono(g, off, env, *t, g1, g2);
        },
        SpecLazy::ApplyElim(inner, e) => {
            lemma_force_mono(g, *inner, g1, g2);
            match spec_force(g, *inner, g1) {
                Option::Some(h) => {
                    match *e {
                        SpecElim::Function(input) => {
                            lemma_apply_function_mono(g, h, *input, g1, g2);
                        },
                        SpecElim::Record(l) => {
                            lemma_apply_record_mono(g, h, l, g1, g2);
                        },
                    }
                },
                Option::None => {},
            }
        },
        _ => {},
    }
}

/// Forcing through glued values is fuel-monotone.
pub proof fn lemma_force_value_mono(g: SpecGlobals, v: SpecValue, f1: nat, f2: nat)
    requires
        f1 <= f2,
        spec_force_value(g, v, f1) is Some,
    ensures
        spec_force_value(g, v, f2) == spec_force_value(g, v, f1),
    decreases f1, 0int,
{
    if f1 == 0 {
        return;
    }
    let g1 = (f1 - 1) as nat;
    let g2 = (f2 - 1) as nat;
    match v {
        SpecValue::Unstuck(_h, _sp, lz) => {
            lemma_force_mono(g, *lz, g1, g2);
            match spec_force(g, *lz, g1) {
                Option::Some(w) => {
                    lemma_force_value_mono(g, w, g1, g2);
                },
                Option::None => {},
            }
        },
        _ => {},
    }
}

/// Determinism across fuel bounds: any two fuels that produce an answer
/// produce the same answer.
pub proof fn lemma_eval_deterministic(
    g: SpecGlobals,
    off: nat,
    env: Seq<SpecValue>,
    t: SpecTerm,
    f1: nat,
    f2: nat,
    v1: SpecValue,
    v2: SpecValue,
)
    requires
        spec_eval(g, off, env, t, f1) == Option::Some(v1),
        spec_eval(g, off, env, t, f2) == Option::Some(v2),
    ensures
        v1 == v2,
{
    if f1 <= f2 {
        lemma_eval_mono(g, off, env, t, f1, f2);
    } else {
        lemma_eval_mono(g, off, env, t, f2, f1);
    }
}

// --- Read-back -------------------------------------------------------------

/// Read-back is fuel-monotone.
pub proof fn lemma_read_back_mono(
    g: SpecGlobals,
    size: nat,
    unfold: Unfold,
    v: SpecValue,
    f1: nat,
    f2: nat,
)
    requires
        f1 <= f2,
        spec_read_back(g, size, unfold, v, f1) is Some,
    ensures
        spec_read_back(g, size, unfold, v, f2) == spec_read_back(g, size, unfold, v, f1),
    decreases f1, 2int,
{
    if f1 == 0 {
        return;
    }
    let g1 = (f1 - 1) as nat;
    let g2 = (f2 - 1) as nat;
    match v {
        SpecValue::Stuck(h, sp) => {
            lemma_read_back_stuck_mono(g, size, unfold, h, sp, g1, g2);
        },
        SpecValue::Unstuck(h, sp, lz) => {
            match unfold {
                Unfold::Never => {
                    match spec_read_back_stuck(g, size, unfold, h, sp, g1) {
                        Option::Some(Option::Some(_t)) => {
                            lemma_read_back_stuck_mono(g, size, unfold, h, sp, g1, g2);
                        },
                        Option::Some(Option::None) => {
                            lemma_read_back_stuck_mono(g, size, unfold, h, sp, g1, g2);
                            lemma_force_mono(g, *lz, g1, g2);
                            match spec_force(g, *lz, g1) {
                                Option::Some(w) => {
                                    lemma_read_back_mono(g, size, unfold, w, g1, g2);
                                },
                                Option::None => {},
                            }
                        },
                        Option::None => {},
                    }
                },
                Unfold::Always => {
                    lemma_force_mono(g, *lz, g1, g2);
                    match spec_force(g, *lz, g1) {
                        Option::Some(w) => {
                            lemma_read_back_mono(g, size, unfold, w, g1, g2);
                        },
                        Option::None => {},
                    }
                },
            }
        },
        SpecValue::FunctionType(_n, i, c) => {
            if size < level_bound() {
                lemma_read_back_mono(g, size, unfold, *i, g1, g2);
                match spec_read_back(g, size, unfold, *i, g1) {
                    Option::Some(_it) => {
                        let local = SpecValue::Stuck(SpecHead::Local(size), Seq::empty());
                        lemma_eval_mono(
                            g,
                            c.universe_offset,
                            c.locals.push(local),
                            c.term,
                            g1,
                            g2,
                        );
                        match spec_eval(g, c.universe_offset, c.locals.push(local), c.term, g1) {
                            Option::Some(ov) => {
                                lemma_read_back_mono(g, size + 1, unfold, ov, g1, g2);
                            },
                            Option::None => {},
                        }
                    },
                    Option::None => {},
                }
            }
        },
        SpecValue::FunctionTerm(_n, c) => {
            if size < level_bound() {
                let local = SpecValue::Stuck(SpecHead::Local(size), Seq::empty());
                lemma_eval_mono(g, c.universe_offset, c.locals.push(local), c.term, g1, g2);
                match spec_eval(g, c.universe_offset, c.locals.push(local), c.term, g1) {
                    Option::Some(ov) => {
                        lemma_read_back_mono(g, size + 1, unfold, ov, g1, g2);
                    },
                    Option::None => {},
                }
            }
        },
        SpecValue::RecordType(rc) => {
            if size + rc.entries.len() <= level_bound() {
                lemma_read_back_record_mono(
                    g,
                    size,
                    unfold,
                    rc.universe_offset,
                    rc.locals,
                    rc.entries,
                    g1,
                    g2,
                );
            }
        },
        SpecValue::RecordTerm(rc) => {
            if size + rc.entries.len() <= level_bound() {
                lemma_read_back_record_mono(
                    g,
                    size,
                    unfold,
                    rc.universe_offset,
                    rc.locals,
                    rc.entries,
                    g1,
                    g2,
                );
            }
        },
        SpecValue::Sequence(vs) => {
            lemma_read_back_values_mono(g, size, unfold, vs, g1, g2);
        },
        _ => {},
    }
}

/// Read-back of stuck values is fuel-monotone.
pub proof fn lemma_read_back_stuck_mono(
    g: SpecGlobals,
    size: nat,
    unfold: Unfold,
    h: SpecHead,
    sp: Seq<SpecElim>,
    f1: nat,
    f2: nat,
)
    requires
        f1 <= f2,
        spec_read_back_stuck(g, size, unfold, h, sp, f1) is Some,
    ensures
        spec_read_back_stuck(g, size, unfold, h, sp, f2) == spec_read_back_stuck(
            g,
            size,
            unfold,
            h,
            sp,
            f1,
        ),
    decreases f1, 1int,
{
    if f1 == 0 {
        return;
    }
    let g1 = (f1 - 1) as nat;
    let g2 = (f2 - 1) as nat;
    match spec_head_term(h, size) {
        Option::Some(base) => {
            lemma_read_back_spine_mono(g, size, unfold, base, sp, g1, g2);
        },
        Option::None => {},
    }
}

/// Read-back of spines is fuel-monotone.
pub proof fn lemma_read_back_spine_mono(
    g: SpecGlobals,
    size: nat,
    unfold: Unfold,
    base: SpecTerm,
    spine: Seq<SpecElim>,
    f1: nat,
    f2: nat,
)
    requires
        f1 <= f2,
        spec_read_back_spine(g, size, unfold, base, spine, f1) is Some,
    ensures
        spec_read_back_spine(g, size, unfold, base, spine, f2) == spec_read_back_spine(
            g,
            size,
            unfold,
            base,
            spine,
            f1,
        ),
    decreases f1, 0int,
{
    if f1 == 0 || spine.len() == 0 {
        return;
    }
    let g1 = (f1 - 1) as nat;
    let g2 = (f2 - 1) as nat;
    match spine[0] {
        SpecElim::Function(input) => {
            lemma_force_mono(g, *input, g1, g2);
            match spec_force(g, *input, g1) {
                Option::Some(v) => {
                    lemma_read_back_mono(g, size, unfold, v, g1, g2);
                    match spec_read_back(g, size, unfold, v, g1) {
                        Option::Some(t) => {
                            lemma_read_back_spine_mono(
                                g,
                                size,
                                unfold,
                                SpecTerm::FunctionElim(Box::new(base), Box::new(t)),
                                spine.skip(1),
                                g1,
                                g2,
                            );
                        },
                        Option::None => {},
                    }
                },
                Option::None => {},
            }
        },
        SpecElim::Record(l) => {
            lemma_read_back_spine_mono(
                g,
                size,
                unfold,
                SpecTerm::RecordElim(Box::new(base), l),
                spine.skip(1),
                g1,
                g2,
            );
        },
    }
}

/// Read-back of record entries is fuel-monotone.
pub proof fn lemma_read_back_record_mono(
    g: SpecGlobals,
    size: nat,
    unfold: Unfold,
    off: nat,
    env: Seq<SpecValue>,
    entries: Seq<(Seq<char>, SpecTerm)>,
    f1: nat,
    f2: nat,
)
    requires
        f1 <= f2,
        spec_read_back_record(g, size, unfold, off, env, entries, f1) is Some,
    ensures
        spec_read_back_record(g, size, unfold, off, env, entries, f2)
            == spec_read_back_record(g, size, unfold, off, env, entries, f1),
    decreases f1, 0int,
{
    if f1 == 0 || entries.len() == 0 {
        return;
    }
    let g1 = (f1 - 1) as nat;
    let g2 = (f2 - 1) as nat;
    lemma_eval_mono(g, off, env, entries[0].1, g1, g2);
    match spec_eval(g, off, env, entries[0].1, g1) {
        Option::Some(ev) => {
            lemma_read_back_mono(g, size, unfold, ev, g1, g2);
            match spec_read_back(g, size, unfold, ev, g1) {
                Option::Some(_et) => {
                    let local = SpecValue::Stuck(SpecHead::Local(size), Seq::empty());
                    lemma_read_back_record_mono(
                        g,
                        size + 1,
                        unfold,
                        off,
                        env.push(local),
                        entries.skip(1),
                        g1,
                        g2,
                    );
                },
                Option::None => {},
            }
        },
        Option::None => {},
    }
}

/// Read-back of value lists is fuel-monotone.
pub proof fn lemma_read_back_values_mono(
    g: SpecGlobals,
    size: nat,
    unfold: Unfold,
    vs: Seq<SpecValue>,
    f1: nat,
    f2: nat,
)
    requires
        f1 <= f2,
        spec_read_back_values(g, size, unfold, vs, f1) is Some,
    ensures
        spec_read_back_values(g, size, unfold, vs, f2) == spec_read_back_values(
            g,
            size,
            unfold,
            vs,
            f1,
        ),
    decreases f1, 0int,
{
    if f1 == 0 || vs.len() == 0 {
        return;
    }
    let g1 = (f1 - 1) as nat;
    let g2 = (f2 - 1) as nat;
    lemma_read_back_mono(g, size, unfold, vs[0], g1, g2);
    match spec_read_back(g, size, unfold, vs[0], g1) {
        Option::Some(_t) => {
            lemma_read_back_values_mono(g, size, unfold, vs.skip(1), g1, g2);
        },
        Option::None => {},
    }
}

// --- Conversion ------------------------------------------------------------

/// Definitional equality is fuel-monotone.
pub proof fn lemma_is_equal_mono(
    g: SpecGlobals,
    size: nat,
    v0: SpecValue,
    v1: SpecValue,
    f1: nat,
    f2: nat,
)
    requires
        f1 <= f2,
        spec_is_equal(g, size, v0, v1, f1) is Some,
    ensures
        spec_is_equal(g, size, v0, v1, f2) == spec_is_equal(g, size, v0, v1, f1),
    decreases f1, 2int,
{
    if f1 == 0 {
        return;
    }
    let g1 = (f1 - 1) as nat;
    let g2 = (f2 - 1) as nat;
    match (v0, v1) {
        (SpecValue::Stuck(h0, sp0), SpecValue::Stuck(h1, sp1)) => {
            lemma_is_equal_stuck_mono(g, size, h0, sp0, h1, sp1, g1, g2);
        },
        (SpecValue::Unstuck(h0, sp0, l0), SpecValue::Unstuck(h1, sp1, l1)) => {
            match spec_is_equal_stuck(g, size, h0, sp0, h1, sp1, g1) {
                Option::Some(true) => {
                    lemma_is_equal_stuck_mono(g, size, h0, sp0, h1, sp1, g1, g2);
                },
                Option::Some(false) => {
                    lemma_is_equal_stuck_mono(g, size, h0, sp0, h1, sp1, g1, g2);
                    lemma_force_mono(g, *l0, g1, g2);
                    match spec_force(g, *l0, g1) {
                        Option::Some(w0) => {
                            lemma_force_mono(g, *l1, g1, g2);
                            match spec_force(g, *l1, g1) {
                                Option::Some(w1) => {
                                    lemma_is_equal_mono(g, size, w0, w1, g1, g2);
                                },
                                Option::None => {},
                            }
                        },
                        Option::None => {},
                    }
                },
                Option::None => {},
            }
        },
        (SpecValue::Unstuck(_h0, _sp0, l0), w1) => {
            lemma_force_mono(g, *l0, g1, g2);
            match spec_force(g, *l0, g1) {
                Option::Some(w0) => {
                    lemma_is_equal_mono(g, size, w0, w1, g1, g2);
                },
                Option::None => {},
            }
        },
        (w0, SpecValue::Unstuck(_h1, _sp1, l1)) => {
            lemma_force_mono(g, *l1, g1, g2);
            match spec_force(g, *l1, g1) {
                Option::Some(w1) => {
                    lemma_is_equal_mono(g, size, w0, w1, g1, g2);
                },
                Option::None => {},
            }
        },
        (SpecValue::FunctionType(_n0, i0, c0), SpecValue::FunctionType(_n1, i1, c1)) => {
            lemma_is_equal_mono(g, size, *i1, *i0, g1, g2);
            match spec_is_equal(g, size, *i1, *i0, g1) {
                Option::Some(true) => {
                    if size < level_bound() {
                        let local = SpecValue::Stuck(SpecHead::Local(size), Seq::empty());
                        lemma_eval_mono(
                            g,
                            c0.universe_offset,
                            c0.locals.push(local),
                            c0.term,
                            g1,
                            g2,
                        );
                        match spec_eval(g, c0.universe_offset, c0.locals.push(local), c0.term, g1) {
                            Option::Some(o0) => {
                                lemma_eval_mono(
                                    g,
                                    c1.universe_offset,
                                    c1.locals.push(local),
                                    c1.term,
                                    g1,
                                    g2,
                                );
                                match spec_eval(
                                    g,
                                    c1.universe_offset,
                                    c1.locals.push(local),
                                    c1.term,
                                    g1,
                                ) {
                                    Option::Some(o1) => {
                                        lemma_is_equal_mono(g, size + 1, o0, o1, g1, g2);
                                    },
                                    Option::None => {},
                                }
                            },
                            Option::None => {},
                        }
                    }
                },
                _ => {},
            }
        },
        (SpecValue::FunctionTerm(_n0, c0), SpecValue::FunctionTerm(_n1, c1)) => {
            if size < level_bound() {
                let local = SpecValue::Stuck(SpecHead::Local(size), Seq::empty());
                lemma_eval_mono(g, c0.universe_offset, c0.locals.push(local), c0.term, g1, g2);
                match spec_eval(g, c0.universe_offset, c0.locals.push(local), c0.term, g1) {
                    Option::Some(o0) => {
                        lemma_eval_mono(
                            g,
                            c1.universe_offset,
                            c1.locals.push(local),
                            c1.term,
                            g1,
                            g2,
                        );
                        match spec_eval(g, c1.universe_offset, c1.locals.push(local), c1.term, g1) {
                            Option::Some(o1) => {
                                lemma_is_equal_mono(g, size + 1, o0, o1, g1, g2);
                            },
                            Option::None => {},
                        }
                    },
                    Option::None => {},
                }
            }
        },
        (SpecValue::RecordType(rc0), SpecValue::RecordType(rc1)) => {
            if rc0.entries.len() == rc1.entries.len() {
                lemma_is_equal_record_mono(
                    g,
                    size,
                    rc0.universe_offset,
                    rc0.locals,
                    rc0.entries,
                    rc1.universe_offset,
                    rc1.locals,
                    rc1.entries,
                    g1,
                    g2,
                );
            }
        },
        (SpecValue::RecordTerm(rc0), SpecValue::RecordTerm(rc1)) => {
            if rc0.entries.len() == rc1.entries.len() {
                lemma_is_equal_record_mono(
                    g,
                    size,
                    rc0.universe_offset,
                    rc0.locals,
                    rc0.entries,
                    rc1.universe_offset,
                    rc1.locals,
                    rc1.entries,
                    g1,
                    g2,
                );
            }
        },
        (SpecValue::Sequence(vs0), SpecValue::Sequence(vs1)) => {
            if vs0.len() == vs1.len() {
                lemma_is_equal_values_mono(g, size, vs0, vs1, g1, g2);
            }
        },
        _ => {},
    }
}

/// Stuck-value equality is fuel-monotone.
pub proof fn lemma_is_equal_stuck_mono(
    g: SpecGlobals,
    size: nat,
    h0: SpecHead,
    sp0: Seq<SpecElim>,
    h1: SpecHead,
    sp1: Seq<SpecElim>,
    f1: nat,
    f2: nat,
)
    requires
        f1 <= f2,
        spec_is_equal_stuck(g, size, h0, sp0, h1, sp1, f1) is Some,
    ensures
        spec_is_equal_stuck(g, size, h0, sp0, h1, sp1, f2) == spec_is_equal_stuck(
            g,
            size,
            h0,
            sp0,
            h1,
            sp1,
            f1,
        ),
    decreases f1, 1int,
{
    if f1 == 0 {
        return;
    }
    if crate::conv::spec_head_eq(h0, h1) && sp0.len() == sp1.len() {
        lemma_is_equal_spine_mono(g, size, sp0, sp1, (f1 - 1) as nat, (f2 - 1) as nat);
    }
}

/// Spine equality is fuel-monotone.
pub proof fn lemma_is_equal_spine_mono(
    g: SpecGlobals,
    size: nat,
    sp0: Seq<SpecElim>,
    sp1: Seq<SpecElim>,
    f1: nat,
    f2: nat,
)
    requires
        f1 <= f2,
        spec_is_equal_spine(g, size, sp0, sp1, f1) is Some,
    ensures
        spec_is_equal_spine(g, size, sp0, sp1, f2) == spec_is_equal_spine(
            g,
            size,
            sp0,
            sp1,
            f1,
        ),
    decreases f1, 0int,
{
    if f1 == 0 || sp0.len() != sp1.len() || sp0.len() == 0 {
        return;
    }
    let g1 = (f1 - 1) as nat;
    let g2 = (f2 - 1) as nat;
    match (sp0[0], sp1[0]) {
        (SpecElim::Function(i0), SpecElim::Function(i1)) => {
            lemma_force_mono(g, *i0, g1, g2);
            match spec_force(g, *i0, g1) {
                Option::Some(v0) => {
                    lemma_force_mono(g, *i1, g1, g2);
                    match spec_force(g, *i1, g1) {
                        Option::Some(v1) => {
                            lemma_is_equal_mono(g, size, v0, v1, g1, g2);
                            match spec_is_equal(g, size, v0, v1, g1) {
                                Option::Some(true) => {
                                    lemma_is_equal_spine_mono(
                                        g,
                                        size,
                                        sp0.skip(1),
                                        sp1.skip(1),
                                        g1,
                                        g2,
                                    );
                                },
                                _ => {},
                            }
                        },
                        Option::None => {},
                    }
                },
                Option::None => {},
            }
        },
        (SpecElim::Record(l0), SpecElim::Record(l1)) => {
            if l0 == l1 {
                lemma_is_equal_spine_mono(g, size, sp0.skip(1), sp1.skip(1), g1, g2);
            }
        },
        _ => {},
    }
}

/// Record equality is fuel-monotone.
pub proof fn lemma_is_equal_record_mono(
    g: SpecGlobals,
    size: nat,
    off0: nat,
    env0: Seq<SpecValue>,
    es0: Seq<(Seq<char>, SpecTerm)>,
    off1: nat,
    env1: Seq<SpecValue>,
    es1: Seq<(Seq<char>, SpecTerm)>,
    f1: nat,
    f2: nat,
)
    requires
        f1 <= f2,
        spec_is_equal_record(g, size, off0, env0, es0, off1, env1, es1, f1) is Some,
    ensures
        spec_is_equal_record(g, size, off0, env0, es0, off1, env1, es1, f2)
            == spec_is_equal_record(g, size, off0, env0, es0, off1, env1, es1, f1),
    decreases f1, 0int,
{
    if f1 == 0 || es0.len() != es1.len() || es0.len() == 0 || es0[0].0 != es1[0].0 || size
        >= level_bound() {
        return;
    }
    let g1 = (f1 - 1) as nat;
    let g2 = (f2 - 1) as nat;
    lemma_eval_mono(g, off0, env0, es0[0].1, g1, g2);
    match spec_eval(g, off0, env0, es0[0].1, g1) {
        Option::Some(e0) => {
            lemma_eval_mono(g, off1, env1, es1[0].1, g1, g2);
            match spec_eval(g, off1, env1, es1[0].1, g1) {
                Option::Some(e1) => {
                    lemma_is_equal_mono(g, size, e0, e1, g1, g2);
                    match spec_is_equal(g, size, e0, e1, g1) {
                        Option::Some(true) => {
                            let local = SpecValue::Stuck(SpecHead::Local(size), Seq::empty());
                            lemma_is_equal_record_mono(
                                g,
                                size + 1,
                                off0,
                                env0.push(local),
                                es0.skip(1),
                                off1,
                                env1.push(local),
                                es1.skip(1),
                                g1,
                                g2,
                            );
                        },
                        _ => {},
                    }
                },
                Option::None => {},
            }
        },
        Option::None => {},
    }
}

/// Pointwise value-list equality is fuel-monotone.
pub proof fn lemma_is_equal_values_mono(
    g: SpecGlobals,
    size: nat,
    vs0: Seq<SpecValue>,
    vs1: Seq<SpecValue>,
    f1: nat,
    f2: nat,
)
    requires
        f1 <= f2,
        spec_is_equal_values(g, size, vs0, vs1, f1) is Some,
    ensures
        spec_is_equal_values(g, size, vs0, vs1, f2) == spec_is_equal_values(
            g,
            size,
            vs0,
            vs1,
            f1,
        ),
    decreases f1, 0int,
{
    if f1 == 0 || vs0.len() != vs1.len() || vs0.len() == 0 {
        return;
    }
    let g1 = (f1 - 1) as nat;
    let g2 = (f2 - 1) as nat;
    lemma_is_equal_mono(g, size, vs0[0], vs1[0], g1, g2);
    match spec_is_equal(g, size, vs0[0], vs1[0], g1) {
        Option::Some(true) => {
            lemma_is_equal_values_mono(g, size, vs0.skip(1), vs1.skip(1), g1, g2);
        },
        _ => {},
    }
}

/// Subtyping is fuel-monotone.
pub proof fn lemma_is_subtype_mono(
    g: SpecGlobals,
    size: nat,
    v0: SpecValue,
    v1: SpecValue,
    f1: nat,
    f2: nat,
)
    requires
        f1 <= f2,
        spec_is_subtype(g, size, v0, v1, f1) is Some,
    ensures
        spec_is_subtype(g, size, v0, v1, f2) == spec_is_subtype(g, size, v0, v1, f1),
    decreases f1, 2int,
{
    if f1 == 0 {
        return;
    }
    let g1 = (f1 - 1) as nat;
    let g2 = (f2 - 1) as nat;
    match (v0, v1) {
        (SpecValue::Stuck(h0, sp0), SpecValue::Stuck(h1, sp1)) => {
            lemma_is_equal_stuck_mono(g, size, h0, sp0, h1, sp1, g1, g2);
        },
        (SpecValue::Unstuck(h0, sp0, l0), SpecValue::Unstuck(h1, sp1, l1)) => {
            match spec_is_equal_stuck(g, size, h0, sp0, h1, sp1, g1) {
                Option::Some(true) => {
                    lemma_is_equal_stuck_mono(g, size, h0, sp0, h1, sp1, g1, g2);
                },
                Option::Some(false) => {
                    lemma_is_equal_stuck_mono(g, size, h0, sp0, h1, sp1, g1, g2);
                    lemma_force_mono(g, *l0, g1, g2);
                    match spec_force(g, *l0, g1) {
                        Option::Some(w0) => {
                            lemma_force_mono(g, *l1, g1, g2);
                            match spec_force(g, *l1, g1) {
                                Option::Some(w1) => {
                                    lemma_is_subtype_mono(g, size, w0, w1, g1, g2);
                                },
                                Option::None => {},
                            }
                        },
                        Option::None => {},
                    }
                },
                Option::None => {},
            }
        },
        (SpecValue::Unstuck(_h0, _sp0, l0), w1) => {
            lemma_force_mono(g, *l0, g1, g2);
            match spec_force(g, *l0, g1) {
                Option::Some(w0) => {
                    lemma_is_subtype_mono(g, size, w0, w1, g1, g2);
                },
                Option::None => {},
            }
        },
        (w0, SpecValue::Unstuck(_h1, _sp1, l1)) => {
            lemma_force_mono(g, *l1, g1, g2);
            match spec_force(g, *l1, g1) {
                Option::Some(w1) => {
                    lemma_is_subtype_mono(g, size, w0, w1, g1, g2);
                },
                Option::None => {},
            }
        },
        (SpecValue::FunctionType(_n0, i0, c0), SpecValue::FunctionType(_n1, i1, c1)) => {
            lemma_is_subtype_mono(g, size, *i1, *i0, g1, g2);
            match spec_is_subtype(g, size, *i1, *i0, g1) {
                Option::Some(true) => {
                    if size < level_bound() {
                        let local = SpecValue::Stuck(SpecHead::Local(size), Seq::empty());
                        lemma_eval_mono(
                            g,
                            c0.universe_offset,
                            c0.locals.push(local),
                            c0.term,
                            g1,
                            g2,
                        );
                        match spec_eval(g, c0.universe_offset, c0.locals.push(local), c0.term, g1) {
                            Option::Some(o0) => {
                                lemma_eval_mono(
                                    g,
                                    c1.universe_offset,
                                    c1.locals.push(local),
                                    c1.term,
                                    g1,
                                    g2,
                                );
                                match spec_eval(
                                    g,
                                    c1.universe_offset,
                                    c1.locals.push(local),
                                    c1.term,
                                    g1,
                                ) {
                                    Option::Some(o1) => {
                                        lemma_is_subtype_mono(g, size + 1, o0, o1, g1, g2);
                                    },
                                    Option::None => {},
                                }
                            },
                            Option::None => {},
                        }
                    }
                },
                _ => {},
            }
        },
        (SpecValue::RecordType(rc0), SpecValue::RecordType(rc1)) => {
            if rc0.entries.len() == rc1.entries.len() {
                lemma_is_subtype_record_mono(
                    g,
                    size,
                    rc0.universe_offset,
                    rc0.locals,
                    rc0.entries,
                    rc1.universe_offset,
                    rc1.locals,
                    rc1.entries,
                    g1,
                    g2,
                );
            }
        },
        _ => {},
    }
}

/// Record subtyping is fuel-monotone.
pub proof fn lemma_is_subtype_record_mono(
    g: SpecGlobals,
    size: nat,
    off0: nat,
    env0: Seq<SpecValue>,
    es0: Seq<(Seq<char>, SpecTerm)>,
    off1: nat,
    env1: Seq<SpecValue>,
    es1: Seq<(Seq<char>, SpecTerm)>,
    f1: nat,
    f2: nat,
)
    requires
        f1 <= f2,
        spec_is_subtype_record(g, size, off0, env0, es0, off1, env1, es1, f1) is Some,
    ensures
        spec_is_subtype_record(g, size, off0, env0, es0, off1, env1, es1, f2)
            == spec_is_subtype_record(g, size, off0, env0, es0, off1, env1, es1, f1),
    decreases f1, 0int,
{
    if f1 == 0 || es0.len() != es1.len() || es0.len() == 0 || es0[0].0 != es1[0].0 || size
        >= level_bound() {
        return;
    }
    let g1 = (f1 - 1) as nat;
    let g2 = (f2 - 1) as nat;
    lemma_eval_mono(g, off0, env0, es0[0].1, g1, g2);
    match spec_eval(g, off0, env0, es0[0].1, g1) {
        Option::Some(e0) => {
            lemma_eval_mono(g, off1, env1, es1[0].1, g1, g2);
            match spec_eval(g, off1, env1, es1[0].1, g1) {
                Option::Some(e1) => {
                    lemma_is_subtype_mono(g, size, e0, e1, g1, g2);
                    match spec_is_subtype(g, size, e0, e1, g1) {
                        Option::Some(true) => {
                            let local = SpecValue::Stuck(SpecHead::Local(size), Seq::empty());
                            lemma_is_subtype_record_mono(
                                g,
                                size + 1,
                                off0,
                                env0.push(local),
                                es0.skip(1),
                                off1,
                                env1.push(local),
                                es1.skip(1),
                                g1,
                                g2,
                            );
                        },
                        _ => {},
                    }
                },
                Option::None => {},
            }
        },
        Option::None => {},
    }
}

} // verus!
