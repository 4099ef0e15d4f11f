//! Laws of the kernel, stated over the model and proved once and for all.
//!
//! Each law speaks about the spec-level interpreter and conversion checker;
//! the contracts of the executable functions carry the laws over to them.
//! A result of `None` stands for an exhausted fuel bound throughout, so a
//! law of the shape "never `Some(false)`" says: the answer cannot be *no*,
//! whatever fuel is available.

use vstd::prelude::*;

use crate::conv::spec_head_eq;
use crate::conv::spec_is_equal;
use crate::conv::spec_is_equal_record;
use crate::conv::spec_is_equal_spine;
use crate::conv::spec_is_equal_stuck;
use crate::conv::spec_is_equal_values;
use crate::conv::spec_is_subtype;
use crate::conv::spec_is_subtype_record;
use crate::readback::spec_read_back;
use crate::semantics::level_bound;
use crate::semantics::spec_eval;
use crate::semantics::spec_force;
use crate::term::SpecTerm;
use crate::value::SpecClosure;
use crate::value::SpecElim;
use crate::value::SpecGlobals;
use crate::value::SpecHead;
use crate::value::SpecLazy;
use crate::value::SpecRecordClosure;
use crate::value::SpecValue;
use crate::value::Unfold;

verus! {

// --- Error absorption -----------------------------------------------------

/// The `Error` sentinel absorbs both conversion relations: comparing it
/// with any value, on either side, never answers *no*; and whenever the
/// other value is not glued (so no forcing is needed), one step of fuel
/// answers *yes* outright.
pub proof fn lemma_error_absorption(g: SpecGlobals, size: nat, v: SpecValue, fuel: nat)
    ensures
        spec_is_equal(g, size, SpecValue::Error, v, fuel) != Option::Some(false),
        spec_is_equal(g, size, v, SpecValue::Error, fuel) != Option::Some(false),
        spec_is_subtype(g, size, SpecValue::Error, v, fuel) != Option::Some(false),
        spec_is_subtype(g, size, v, SpecValue::Error, fuel) != Option::Some(false),
        fuel >= 1 && !(v is Unstuck) ==> {
            &&& spec_is_equal(g, size, SpecValue::Error, v, fuel) == Option::Some(true)
            &&& spec_is_equal(g, size, v, SpecValue::Error, fuel) == Option::Some(true)
            &&& spec_is_subtype(g, size, SpecValue::Error, v, fuel) == Option::Some(true)
            &&& spec_is_subtype(g, size, v, SpecValue::Error, fuel) == Option::Some(true)
        },
    decreases fuel,
{
    if fuel > 0 {
        let f = (fuel - 1) as nat;
        match v {
            SpecValue::Unstuck(_h, _sp, lz) => {
                match spec_force(g, *lz, f) {
                    Option::None => {},
                    Option::Some(w) => {
                        lemma_error_absorption(g, size, w, f);
                    },
                }
            },
            _ => {},
        }
    }
}

// --- Reflexivity ----------------------------------------------------------

/// Definitional equality is reflexive: comparing any value with itself
/// never answers *no*. When two glued values share their head and spine the
/// short-circuit answers *yes* without touching either payload, so on the
/// diagonal the payload is never forced.
pub proof fn lemma_is_equal_refl(g: SpecGlobals, size: nat, v: SpecValue, fuel: nat)
    ensures
        spec_is_equal(g, size, v, v, fuel) != Option::Some(false),
    decreases fuel, 2int,
{
    if fuel > 0 {
        let f = (fuel - 1) as nat;
        match v {
            SpecValue::Stuck(h, sp) => {
                lemma_is_equal_stuck_refl(g, size, h, sp, f);
            },
            SpecValue::Unstuck(h, sp, _lz) => {
                lemma_is_equal_stuck_refl(g, size, h, sp, f);
            },
            SpecValue::FunctionType(_n, i, c) => {
                lemma_is_equal_refl(g, size, *i, f);
                if size < level_bound() {
                    let local = SpecValue::Stuck(SpecHead::Local(size), Seq::empty());
                    match spec_eval(g, c.universe_offset, c.locals.push(local), c.term, f) {
                        Option::None => {},
                        Option::Some(o) => {
                            lemma_is_equal_refl(g, (size + 1) as nat, o, f);
                        },
                    }
                }
            },
            SpecValue::FunctionTerm(_n, c) => {
                if size < level_bound() {
                    let local = SpecValue::Stuck(SpecHead::Local(size), Seq::empty());
                    match spec_eval(g, c.universe_offset, c.locals.push(local), c.term, f) {
                        Option::None => {},
                        Option::Some(o) => {
                            lemma_is_equal_refl(g, (size + 1) as nat, o, f);
                        },
                    }
                }
            },
            SpecValue::RecordType(rc) => {
                lemma_is_equal_record_refl(
                    g,
                    size,
                    rc.universe_offset,
                    rc.locals,
                    rc.entries,
                    f,
                );
            },
            SpecValue::RecordTerm(rc) => {
                lemma_is_equal_record_refl(
                    g,
                    size,
                    rc.universe_offset,
                    rc.locals,
                    rc.entries,
                    f,
                );
            },
            SpecValue::Sequence(vs) => {
                lemma_is_equal_values_refl(g, size, vs, f);
            },
            _ => {},
        }
    }
}

/// A stuck value always compares equal to itself, up to fuel.
pub proof fn lemma_is_equal_stuck_refl(
    g: SpecGlobals,
    size: nat,
    h: SpecHead,
    sp: Seq<SpecElim>,
    fuel: nat,
)
    ensures
        spec_is_equal_stuck(g, size, h, sp, h, sp, fuel) != Option::Some(false),
    decreases fuel, 1int,
{
    if fuel > 0 {
        lemma_is_equal_spine_refl(g, size, sp, (fuel - 1) as nat);
    }
}

/// A spine always compares equal to itself, up to fuel.
pub proof fn lemma_is_equal_spine_refl(g: SpecGlobals, size: nat, sp: Seq<SpecElim>, fuel: nat)
    ensures
        spec_is_equal_spine(g, size, sp, sp, fuel) != Option::Some(false),
    decreases fuel, 0int,
{
    if fuel > 0 && sp.len() > 0 {
        let f = (fuel - 1) as nat;
        match sp[0] {
            SpecElim::Function(i0) => {
                match spec_force(g, *i0, f) {
                    Option::None => {},
                    Option::Some(w) => {
                        lemma_is_equal_refl(g, size, w, f);
                        lemma_is_equal_spine_refl(g, size, sp.skip(1), f);
                    },
                }
            },
            SpecElim::Record(_l) => {
                lemma_is_equal_spine_refl(g, size, sp.skip(1), f);
            },
        }
    }
}

/// A record closure always compares equal to itself, entry by entry.
pub proof fn lemma_is_equal_record_refl(
    g: SpecGlobals,
    size: nat,
    off: nat,
    env: Seq<SpecValue>,
    es: Seq<(Seq<char>, SpecTerm)>,
    fuel: nat,
)
    ensures
        spec_is_equal_record(g, size, off, env, es, off, env, es, fuel) != Option::Some(false),
    decreases fuel, 0int,
{
    if fuel > 0 && es.len() > 0 && size < level_bound() {
        let f = (fuel - 1) as nat;
        match spec_eval(g, off, env, es[0].1, f) {
            Option::None => {},
            Option::Some(e) => {
                lemma_is_equal_refl(g, size, e, f);
                let local = SpecValue::Stuck(SpecHead::Local(size), Seq::empty());
                lemma_is_equal_record_refl(
                    g,
                    (size + 1) as nat,
                    off,
                    env.push(local),
                    es.skip(1),
                    f,
                );
            },
        }
    }
}

/// A value list always compares equal to itself, pointwise.
pub proof fn lemma_is_equal_values_refl(
    g: SpecGlobals,
    size: nat,
    vs: Seq<SpecValue>,
    fuel: nat,
)
    ensures
        spec_is_equal_values(g, size, vs, vs, fuel) != Option::Some(false),
    decreases fuel, 0int,
{
    if fuel > 0 && vs.len() > 0 {
        let f = (fuel - 1) as nat;
        lemma_is_equal_refl(g, size, vs[0], f);
        match spec_is_equal(g, size, vs[0], vs[0], f) {
            Option::Some(true) => {
                lemma_is_equal_values_refl(g, size, vs.skip(1), f);
            },
            _ => {},
        }
    }
}

// --- Reflexivity of subtyping ---------------------------------------------

/// A fuel-indexed semantic notion of "type value": the shapes on which
/// subtyping is defined, with every component that subtyping would visit
/// within the given fuel again a type value. Stuck and glued values count
/// as type values (they may stand for types), and so does `Error`.
pub open spec fn spec_is_type_value(g: SpecGlobals, size: nat, v: SpecValue, fuel: nat) -> bool
    decreases fuel, 1int,
{
    if fuel == 0 {
        true
    } else {
        let f = (fuel - 1) as nat;
        match v {
            SpecValue::Stuck(_h, _sp) => true,
            SpecValue::Unstuck(_h, _sp, _lz) => true,
            SpecValue::TypeType(_l) => true,
            SpecValue::Error => true,
            SpecValue::FunctionType(_n, i, c) => spec_is_type_value(g, size, *i, f)
                && if size < level_bound() {
                let local = SpecValue::Stuck(SpecHead::Local(size), Seq::empty());
                match spec_eval(g, c.universe_offset, c.locals.push(local), c.term, f) {
                    Option::None => true,
                    Option::Some(o) => spec_is_type_value(g, size + 1, o, f),
                }
            } else {
                true
            },
            SpecValue::RecordType(rc) => spec_is_type_record(
                g,
                size,
                rc.universe_offset,
                rc.locals,
                rc.entries,
                f,
            ),
            _ => false,
        }
    }
}

/// The record-closure side of [`spec_is_type_value`]: each entry evaluates
/// to a type value under the growing environment of fresh locals.
pub open spec fn spec_is_type_record(
    g: SpecGlobals,
    size: nat,
    off: nat,
    env: Seq<SpecValue>,
    es: Seq<(Seq<char>, SpecTerm)>,
    fuel: nat,
) -> bool
    decreases fuel, 0int,
{
    if fuel == 0 || es.len() == 0 || size >= level_bound() {
        true
    } else {
        let f = (fuel - 1) as nat;
        match spec_eval(g, off, env, es[0].1, f) {
            Option::None => true,
            Option::Some(w) => {
                let local = SpecValue::Stuck(SpecHead::Local(size), Seq::empty());
                spec_is_type_value(g, size, w, f) && spec_is_type_record(
                    g,
                    size + 1,
                    off,
                    env.push(local),
                    es.skip(1),
                    f,
                )
            },
        }
    }
}

/// Subtyping is reflexive on type values: a type value is always a subtype
/// of itself, up to fuel.
pub proof fn lemma_is_subtype_refl(g: SpecGlobals, size: nat, v: SpecValue, fuel: nat)
    requires
        spec_is_type_value(g, size, v, fuel),
    ensures
        spec_is_subtype(g, size, v, v, fuel) != Option::Some(false),
    decreases fuel, 1int,
{
    if fuel > 0 {
        let f = (fuel - 1) as nat;
        match v {
            SpecValue::Stuck(h, sp) => {
                lemma_is_equal_stuck_refl(g, size, h, sp, f);
            },
            SpecValue::Unstuck(h, sp, _lz) => {
                lemma_is_equal_stuck_refl(g, size, h, sp, f);
            },
            SpecValue::FunctionType(_n, i, c) => {
                lemma_is_subtype_refl(g, size, *i, f);
                if size < level_bound() {
                    let local = SpecValue::Stuck(SpecHead::Local(size), Seq::empty());
                    match spec_eval(g, c.universe_offset, c.locals.push(local), c.term, f) {
                        Option::None => {},
                        Option::Some(o) => {
                            lemma_is_subtype_refl(g, (size + 1) as nat, o, f);
                        },
                    }
                }
            },
            SpecValue::RecordType(rc) => {
                lemma_is_subtype_record_refl(
                    g,
                    size,
                    rc.universe_offset,
                    rc.locals,
                    rc.entries,
                    f,
                );
            },
            _ => {},
        }
    }
}

/// Record subtyping is reflexive on record closures whose entries are type
/// values.
pub proof fn lemma_is_subtype_record_refl(
    g: SpecGlobals,
    size: nat,
    off: nat,
    env: Seq<SpecValue>,
    es: Seq<(Seq<char>, SpecTerm)>,
    fuel: nat,
)
    requires
        spec_is_type_record(g, size, off, env, es, fuel),
    ensures
        spec_is_subtype_record(g, size, off, env, es, off, env, es, fuel) != Option::Some(false),
    decreases fuel, 0int,
{
    if fuel > 0 && es.len() > 0 && size < level_bound() {
        let f = (fuel - 1) as nat;
        match spec_eval(g, off, env, es[0].1, f) {
            Option::None => {},
            Option::Some(e) => {
                lemma_is_subtype_refl(g, size, e, f);
                let local = SpecValue::Stuck(SpecHead::Local(size), Seq::empty());
                lemma_is_subtype_record_refl(
                    g,
                    (size + 1) as nat,
                    off,
                    env.push(local),
                    es.skip(1),
                    f,
                );
            },
        }
    }
}

// --- Cumulativity ---------------------------------------------------------

/// Cumulativity of universes: `Type l0` is a subtype of `Type l1` exactly
/// when `l0 <= l1`.
pub proof fn lemma_cumulativity(g: SpecGlobals, size: nat, l0: nat, l1: nat, fuel: nat)
    requires
        fuel >= 1,
    ensures
        spec_is_subtype(g, size, SpecValue::TypeType(l0), SpecValue::TypeType(l1), fuel)
            == Option::Some(l0 <= l1),
        spec_is_equal(g, size, SpecValue::TypeType(l0), SpecValue::TypeType(l1), fuel)
            == Option::Some(l0 == l1),
{
}

// --- Function type variance -----------------------------------------------

/// Variance of function types: `Π(a : A0). B0` is a subtype of
/// `Π(a : A1). B1` exactly when `A1` is a subtype of `A0` (contravariant)
/// and, under a shared fresh local standing for `a`, the output `B0` is a
/// subtype of the output `B1` (covariant). The hypotheses name the values
/// the two output closures evaluate to under the fresh local.
pub proof fn lemma_function_type_variance(
    g: SpecGlobals,
    size: nat,
    n0: Option<Seq<char>>,
    i0: SpecValue,
    c0: SpecClosure,
    n1: Option<Seq<char>>,
    i1: SpecValue,
    c1: SpecClosure,
    o0: SpecValue,
    o1: SpecValue,
    fuel: nat,
)
    requires
        fuel >= 1,
        size < level_bound(),
        spec_eval(
            g,
            c0.universe_offset,
            c0.locals.push(SpecValue::Stuck(SpecHead::Local(size), Seq::empty())),
            c0.term,
            (fuel - 1) as nat,
        ) == Option::Some(o0),
        spec_eval(
            g,
            c1.universe_offset,
            c1.locals.push(SpecValue::Stuck(SpecHead::Local(size), Seq::empty())),
            c1.term,
            (fuel - 1) as nat,
        ) == Option::Some(o1),
    ensures
        spec_is_subtype(
            g,
            size,
            SpecValue::FunctionType(n0, Box::new(i0), c0),
            SpecValue::FunctionType(n1, Box::new(i1), c1),
            fuel,
        ) == Option::Some(true) <==> {
            &&& spec_is_subtype(g, size, i1, i0, (fuel - 1) as nat) == Option::Some(true)
            &&& spec_is_subtype(g, size + 1, o0, o1, (fuel - 1) as nat) == Option::Some(true)
        },
{
}

// --- Offset composition ----------------------------------------------------

/// Composition of universe lifts: lifting by `a` and then by `b` evaluates
/// exactly as one lift by `a + b`, whenever the combined offset is
/// representable. The two extra steps of fuel on the left pay for the two
/// nested `Lift` nodes.
pub proof fn lemma_lift_composition(
    g: SpecGlobals,
    off: nat,
    env: Seq<SpecValue>,
    t: SpecTerm,
    a: nat,
    b: nat,
    fuel: nat,
)
    requires
        off + a + b <= level_bound(),
    ensures
        spec_eval(
            g,
            off,
            env,
            SpecTerm::Lift(Box::new(SpecTerm::Lift(Box::new(t), a)), b),
            fuel + 2,
        ) == spec_eval(g, off, env, SpecTerm::Lift(Box::new(t), (a + b) as nat), fuel + 1),
{
    assert(spec_eval(
        g,
        off,
        env,
        SpecTerm::Lift(Box::new(SpecTerm::Lift(Box::new(t), a)), b),
        fuel + 2,
    ) == spec_eval(g, (off + b) as nat, env, SpecTerm::Lift(Box::new(t), a), fuel + 1));
    assert(spec_eval(g, (off + b) as nat, env, SpecTerm::Lift(Box::new(t), a), fuel + 1)
        == spec_eval(g, (off + b + a) as nat, env, t, fuel));
    assert(spec_eval(g, off, env, SpecTerm::Lift(Box::new(t), (a + b) as nat), fuel + 1)
        == spec_eval(g, (off + a + b) as nat, env, t, fuel));
}

// --- Glued coherence -------------------------------------------------------

/// Fully-unfolding read-back of a glued value is read-back of its forced
/// payload: the retained head and spine never enter the result, so two
/// glued values with the same payload read back identically whatever their
/// stuck shells.
pub proof fn lemma_glued_read_back(
    g: SpecGlobals,
    size: nat,
    h0: SpecHead,
    sp0: Seq<SpecElim>,
    h1: SpecHead,
    sp1: Seq<SpecElim>,
    lz: SpecLazy,
    fuel: nat,
)
    requires
        fuel >= 1,
    ensures
        spec_read_back(
            g,
            size,
            Unfold::Always,
            SpecValue::Unstuck(h0, sp0, Box::new(lz)),
            fuel,
        ) == (match spec_force(g, lz, (fuel - 1) as nat) {
            Option::None => Option::None,
            Option::Some(w) => spec_read_back(g, size, Unfold::Always, w, (fuel - 1) as nat),
        }),
        spec_read_back(g, size, Unfold::Always, SpecValue::Unstuck(h0, sp0, Box::new(lz)), fuel)
            == spec_read_back(
            g,
            size,
            Unfold::Always,
            SpecValue::Unstuck(h1, sp1, Box::new(lz)),
            fuel,
        ),
{
}

} // verus!
