//! Read-back (quotation): values back into the term syntax.
//!
//! Read-back produces a term that evaluates back to an equal value. With
//! [`Unfold::Always`] every glued value is unfolded to its forced payload,
//! yielding a fully normalised term; with [`Unfold::Never`] glued values keep
//! their compact stuck form. Read-back is the only place new local levels
//! are introduced: binders are entered by applying closures to fresh local
//! variables at the next level, so bound-variable identity never depends on
//! names.
//!
//! A local level that escapes the current environment (it was captured in a
//! larger one) cannot be turned into an index. A stuck value then reads back
//! as `Error`; an unstuck value falls back to forcing its payload.

use std::rc::Rc;
use vstd::prelude::*;

use crate::semantics::level_bound;
use crate::semantics::spec_eval;
use crate::semantics::spec_force;
use crate::term::SpecTerm;
use crate::term::Term;
use crate::term::term_view;
use crate::term::entries_view;
use crate::term::terms_view;
use crate::term::lemma_entries_view;
use crate::term::lemma_terms_view;
use crate::value::Elim;
use crate::value::Globals;
use crate::value::Head;
use crate::value::Locals;
use crate::value::SpecElim;
use crate::value::SpecHead;
use crate::value::SpecValue;
use crate::value::Unfold;
use crate::value::Value;
use crate::value::elims_view;
use crate::value::lemma_elims_view;
use crate::value::lemma_values_view;
use crate::value::value_view;
use crate::value::values_view;
use crate::eval::eval_term;

verus! {

/// The mirror of an optional read-back result.
pub open spec fn opt_term_view(r: Option<Rc<Term>>) -> Option<SpecTerm> {
    match r {
        Option::Some(t) => Option::Some(term_view(*t)),
        Option::None => Option::None,
    }
}

/// The term form of a head: a global, lifted when its offset is non-zero, or
/// a local level converted to an index; `None` when the level escapes the
/// current environment.
pub open spec fn spec_head_term(head: SpecHead, size: nat) -> Option<SpecTerm> {
    match head {
        SpecHead::Global(n, off) => if off == 0 {
            Option::Some(SpecTerm::Global(n))
        } else {
            Option::Some(SpecTerm::Lift(Box::new(SpecTerm::Global(n)), off))
        },
        SpecHead::Local(lvl) => if lvl < size {
            Option::Some(SpecTerm::Local((size - 1 - lvl) as nat))
        } else {
            Option::None
        },
    }
}

/// Fold a spine of eliminators over a head term, forcing and reading back
/// each function argument.
pub open spec fn spec_read_back_spine(
    g: crate::value::SpecGlobals,
    size: nat,
    unfold: Unfold,
    base: SpecTerm,
    spine: Seq<SpecElim>,
    fuel: nat,
) -> Option<SpecTerm>
    decreases fuel,
{
    if fuel == 0 {
        Option::None
    } else if spine.len() == 0 {
        Option::Some(base)
    } else {
        let f = (fuel - 1) as nat;
        match spine[0] {
            SpecElim::Function(input) => match spec_force(g, *input, f) {
                Option::None => Option::None,
                Option::Some(v) => match spec_read_back(g, size, unfold, v, f) {
                    Option::None => Option::None,
                    Option::Some(t) => spec_read_back_spine(
                        g,
                        size,
                        unfold,
                        SpecTerm::FunctionElim(Box::new(base), Box::new(t)),
                        spine.skip(1),
                        f,
                    ),
                },
            },
            SpecElim::Record(l) => spec_read_back_spine(
                g,
                size,
                unfold,
                SpecTerm::RecordElim(Box::new(base), l),
                spine.skip(1),
                f,
            ),
        }
    }
}

/// Read a stuck value back; the inner `None` reports an escaped local level.
pub open spec fn spec_read_back_stuck(
    g: crate::value::SpecGlobals,
    size: nat,
    unfold: Unfold,
    head: SpecHead,
    spine: Seq<SpecElim>,
    fuel: nat,
) -> Option<Option<SpecTerm>>
    decreases fuel,
{
    if fuel == 0 {
        Option::None
    } else {
        let f = (fuel - 1) as nat;
        match spec_head_term(head, size) {
            Option::None => Option::Some(Option::None),
            Option::Some(base) => match spec_read_back_spine(g, size, unfold, base, spine, f) {
                Option::None => Option::None,
                Option::Some(t) => Option::Some(Option::Some(t)),
            },
        }
    }
}

/// Read a value back into the term syntax.
pub open spec fn spec_read_back(
    g: crate::value::SpecGlobals,
    size: nat,
    unfold: Unfold,
    v: SpecValue,
    fuel: nat,
) -> Option<SpecTerm>
    decreases fuel,
{
    if fuel == 0 {
        Option::None
    } else {
        let f = (fuel - 1) as nat;
        match v {
            SpecValue::Stuck(h, sp) => match spec_read_back_stuck(g, size, unfold, h, sp, f) {
                Option::None => Option::None,
                Option::Some(Option::None) => Option::Some(SpecTerm::Error),
                Option::Some(Option::Some(t)) => Option::Some(t),
            },
            SpecValue::Unstuck(h, sp, lz) => match unfold {
                Unfold::Never => match spec_read_back_stuck(g, size, unfold, h, sp, f) {
                    Option::None => Option::None,
                    Option::Some(Option::Some(t)) => Option::Some(t),
                    Option::Some(Option::None) => match spec_force(g, *lz, f) {
                        Option::None => Option::None,
                        Option::Some(w) => spec_read_back(g, size, unfold, w, f),
                    },
                },
                Unfold::Always => match spec_force(g, *lz, f) {
                    Option::None => Option::None,
                    Option::Some(w) => spec_read_back(g, size, unfold, w, f),
                },
            },
            SpecValue::TypeType(l) => Option::Some(SpecTerm::TypeType(l)),
            SpecValue::FunctionType(n, i, c) => if size < level_bound() {
                match spec_read_back(g, size, unfold, *i, f) {
                    Option::None => Option::None,
                    Option::Some(it) => match spec_eval(
                        g,
                        c.universe_offset,
                        c.locals.push(SpecValue::Stuck(SpecHead::Local(size), Seq::empty())),
                        c.term,
                        f,
                    ) {
                        Option::None => Option::None,
                        Option::Some(ov) => match spec_read_back(g, size + 1, unfold, ov, f) {
                            Option::None => Option::None,
                            Option::Some(ot) => Option::Some(
                                SpecTerm::FunctionType(n, Box::new(it), Box::new(ot)),
                            ),
                        },
                    },
                }
            } else {
                Option::Some(SpecTerm::Error)
            },
            SpecValue::FunctionTerm(n, c) => if size < level_bound() {
                match spec_eval(
                    g,
                    c.universe_offset,
                    c.locals.push(SpecValue::Stuck(SpecHead::Local(size), Seq::empty())),
                    c.term,
                    f,
                ) {
                    Option::None => Option::None,
                    Option::Some(ov) => match spec_read_back(g, size + 1, unfold, ov, f) {
                        Option::None => Option::None,
                        Option::Some(ot) => Option::Some(SpecTerm::FunctionTerm(n, Box::new(ot))),
                    },
                }
            } else {
                Option::Some(SpecTerm::Error)
            },
            SpecValue::RecordType(rc) => if size + rc.entries.len() <= level_bound() {
                match spec_read_back_record(
                    g,
                    size,
                    unfold,
                    rc.universe_offset,
                    rc.locals,
                    rc.entries,
                    f,
                ) {
                    Option::None => Option::None,
                    Option::Some(ts) => Option::Some(SpecTerm::RecordType(ts)),
                }
            } else {
                Option::Some(SpecTerm::Error)
            },
            SpecValue::RecordTerm(rc) => if size + rc.entries.len() <= level_bound() {
                match spec_read_back_record(
                    g,
                    size,
                    unfold,
                    rc.universe_offset,
                    rc.locals,
                    rc.entries,
                    f,
                ) {
                    Option::None => Option::None,
                    Option::Some(ts) => Option::Some(SpecTerm::RecordTerm(ts)),
                }
            } else {
                Option::Some(SpecTerm::Error)
            },
            SpecValue::Sequence(vs) => match spec_read_back_values(g, size, unfold, vs, f) {
                Option::None => Option::None,
                Option::Some(ts) => Option::Some(SpecTerm::Sequence(ts)),
            },
            SpecValue::Constant(c) => Option::Some(SpecTerm::Constant(c)),
            SpecValue::Error => Option::Some(SpecTerm::Error),
        }
    }
}

/// Read the entries of a record closure back, evaluating each entry and then
/// extending the environment with a fresh local at the running size.
pub open spec fn spec_read_back_record(
    g: crate::value::SpecGlobals,
    size: nat,
    unfold: Unfold,
    off: nat,
    env: Seq<SpecValue>,
    entries: Seq<(Seq<char>, SpecTerm)>,
    fuel: nat,
) -> Option<Seq<(Seq<char>, SpecTerm)>>
    decreases fuel,
{
    if fuel == 0 {
        Option::None
    } else if entries.len() == 0 {
        Option::Some(Seq::empty())
    } else {
        let f = (fuel - 1) as nat;
        match spec_eval(g, off, env, entries[0].1, f) {
            Option::None => Option::None,
            Option::Some(ev) => match spec_read_back(g, size, unfold, ev, f) {
                Option::None => Option::None,
                Option::Some(et) => match spec_read_back_record(
                    g,
                    size + 1,
                    unfold,
                    off,
                    env.push(SpecValue::Stuck(SpecHead::Local(size), Seq::empty())),
                    entries.skip(1),
                    f,
                ) {
                    Option::None => Option::None,
                    Option::Some(rest) => Option::Some(seq![(entries[0].0, et)] + rest),
                },
            },
        }
    }
}

/// Read a list of values back pointwise.
pub open spec fn spec_read_back_values(
    g: crate::value::SpecGlobals,
    size: nat,
    unfold: Unfold,
    vs: Seq<SpecValue>,
    fuel: nat,
) -> Option<Seq<SpecTerm>>
    decreases fuel,
{
    if fuel == 0 {
        Option::None
    } else if vs.len() == 0 {
        Option::Some(Seq::empty())
    } else {
        let f = (fuel - 1) as nat;
        match spec_read_back(g, size, unfold, vs[0], f) {
            Option::None => Option::None,
            Option::Some(t) => match spec_read_back_values(g, size, unfold, vs.skip(1), f) {
                Option::None => Option::None,
                Option::Some(rest) => Option::Some(seq![t] + rest),
            },
        }
    }
}

// --- Executable read-back ------------------------------------------------

/// Read a stuck value's spine back over a head term, from position `i` on.
fn read_back_spine(
    globals: &Globals,
    local_size: usize,
    unfold: Unfold,
    base: Rc<Term>,
    spine: &Vec<Elim>,
    i: usize,
    fuel: u64,
) -> (r: Option<Rc<Term>>)
    requires
        i <= spine@.len(),
    ensures
        opt_term_view(r) == spec_read_back_spine(
            globals@,
            local_size as nat,
            unfold,
            term_view(*base),
            elims_view(spine@).skip(i as int),
            fuel as nat,
        ),
    decreases fuel as nat, 0int,
{
    proof {
        lemma_elims_view(spine@);
    }
    if fuel == 0 {
        Option::None
    } else if i == spine.len() {
        proof {
            assert(elims_view(spine@).skip(i as int) =~= Seq::empty());
        }
        Option::Some(base)
    } else {
        proof {
            assert(elims_view(spine@).skip(i + 1 as int) =~= elims_view(spine@).skip(
                i as int,
            ).skip(1));
        }
        match &spine[i] {
            Elim::Function(input) => {
                let r1 = input.force(globals, fuel - 1);
                match r1 {
                    Option::None => Option::None,
                    Option::Some(v) => {
                        let r2 = read_back_value(globals, local_size, unfold, &v, fuel - 1);
                        match r2 {
                            Option::None => Option::None,
                            Option::Some(t) => read_back_spine(
                                globals,
                                local_size,
                                unfold,
                                Rc::new(Term::FunctionElim(base, t)),
                                spine,
                                i + 1,
                                fuel - 1,
                            ),
                        }
                    },
                }
            },
            Elim::Record(l) => read_back_spine(
                globals,
                local_size,
                unfold,
                Rc::new(Term::RecordElim(base, l.clone())),
                spine,
                i + 1,
                fuel - 1,
            ),
        }
    }
}

/// Read a stuck value back; `None` in the inner position reports an escaped
/// local level.
fn read_back_stuck(
    globals: &Globals,
    local_size: usize,
    unfold: Unfold,
    head: &Head,
    spine: &Vec<Elim>,
    fuel: u64,
) -> (r: Option<Option<Rc<Term>>>)
    ensures
        (match r {
            Option::Some(Option::Some(t)) => Option::Some(Option::Some(term_view(*t))),
            Option::Some(Option::None) => Option::Some(Option::None),
            Option::None => Option::None,
        }) == spec_read_back_stuck(
            globals@,
            local_size as nat,
            unfold,
            crate::value::head_view(*head),
            elims_view(spine@),
            fuel as nat,
        ),
    decreases fuel as nat, 1int,
{
    if fuel == 0 {
        return Option::None;
    }
    proof {
        assert(elims_view(spine@).skip(0) =~= elims_view(spine@));
    }
    let base: Rc<Term> = match head {
        Head::Global(n, off) => {
            if *off == 0 {
                let b = Rc::new(Term::Global(n.clone()));
                proof {
                    assert(term_view(*b) == SpecTerm::Global(n@));
                }
                b
            } else {
                let inner = Rc::new(Term::Global(n.clone()));
                proof {
                    assert(term_view(*inner) == SpecTerm::Global(n@));
                }
                let b = Rc::new(Term::Lift(inner, *off));
                proof {
                    assert(term_view(*b) == SpecTerm::Lift(
                        Box::new(SpecTerm::Global(n@)),
                        *off as nat,
                    ));
                }
                b
            }
        },
        Head::Local(lvl) => {
            if *lvl < local_size {
                Rc::new(Term::Local(local_size - 1 - *lvl))
            } else {
                return Option::Some(Option::None);
            }
        },
    };
    proof {
        assert(spec_head_term(crate::value::head_view(*head), local_size as nat)
            == Option::Some(term_view(*base)));
    }
    match read_back_spine(globals, local_size, unfold, base, spine, 0, fuel - 1) {
        Option::None => Option::None,
        Option::Some(t) => Option::Some(Option::Some(t)),
    }
}

/// Read a value back into the term syntax.
///
/// With [`Unfold::Always`] the result is fully normalised; with
/// [`Unfold::Never`] glued values keep their stuck form. A stuck local level
/// that escapes `local_size` reads back as `Error`; an unstuck one falls
/// back to its forced payload.
pub fn read_back_value(
    globals: &Globals,
    local_size: usize,
    unfold: Unfold,
    value: &Value,
    fuel: u64,
) -> (r: Option<Rc<Term>>)
    ensures
        opt_term_view(r) == spec_read_back(
            globals@,
            local_size as nat,
            unfold,
            value@,
            fuel as nat,
        ),
    decreases fuel as nat, 2int,
{
    if fuel == 0 {
        return Option::None;
    }
    let ghost goal = spec_read_back(globals@, local_size as nat, unfold, value@, fuel as nat);
    match value {
        Value::Stuck(h, sp) => {
            let r1 = read_back_stuck(globals, local_size, unfold, h, sp, fuel - 1);
            let r0 = match r1 {
                Option::None => Option::None,
                Option::Some(Option::None) => Option::Some(Rc::new(Term::Error)),
                Option::Some(Option::Some(t)) => Option::Some(t),
            };
            proof {
                assert(opt_term_view(r0) == goal);
            }
            r0
        },
        Value::Unstuck(h, sp, lz) => {
            let r0 = match unfold {
                Unfold::Never => {
                    let r1 = read_back_stuck(globals, local_size, unfold, h, sp, fuel - 1);
                    match r1 {
                        Option::None => Option::None,
                        Option::Some(Option::Some(t)) => Option::Some(t),
                        Option::Some(Option::None) => match lz.force(globals, fuel - 1) {
                            Option::None => Option::None,
                            Option::Some(w) => read_back_value(
                                globals,
                                local_size,
                                unfold,
                                &w,
                                fuel - 1,
                            ),
                        },
                    }
                },
                Unfold::Always => match lz.force(globals, fuel - 1) {
                    Option::None => Option::None,
                    Option::Some(w) => read_back_value(globals, local_size, unfold, &w, fuel - 1),
                },
            };
            proof {
                assert(opt_term_view(r0) == goal);
            }
            r0
        },
        Value::TypeType(l) => {
            let r0 = Option::Some(Rc::new(Term::TypeType(*l)));
            proof {
                assert(opt_term_view(r0) == goal);
            }
            r0
        },
        Value::FunctionType(n, i, c) => {
            proof {
                assert(value@ == SpecValue::FunctionType(
                    crate::value::hint_view(*n),
                    Box::new(value_view(**i)),
                    crate::value::fclosure_view(*c),
                ));
                assert(crate::value::fclosure_view(*c).locals == c.locals@);
                assert(crate::value::fclosure_view(*c).term == term_view(*c.term));
            }
            if local_size < usize::MAX {
                let r0 = match read_back_value(globals, local_size, unfold, i, fuel - 1) {
                    Option::None => Option::None,
                    Option::Some(it) => {
                        let local = Rc::new(Value::Stuck(Head::Local(local_size), Vec::new()));
                        proof {
                            assert(elims_view(Seq::<Elim>::empty())
                                == Seq::<SpecElim>::empty());
                        }
                        let mut env = c.locals.duplicate();
                        env.push(local);
                        match eval_term(globals, c.universe_offset, &env, &c.term, fuel - 1) {
                            Option::None => Option::None,
                            Option::Some(ov) => {
                                match read_back_value(
                                    globals,
                                    local_size + 1,
                                    unfold,
                                    &ov,
                                    fuel - 1,
                                ) {
                                    Option::None => Option::None,
                                    Option::Some(ot) => Option::Some(
                                        Rc::new(
                                            Term::FunctionType(
                                                crate::value::dup_hint(n),
                                                it,
                                                ot,
                                            ),
                                        ),
                                    ),
                                }
                            },
                        }
                    },
                };
                proof {
                    assert(opt_term_view(r0) == goal);
                }
                r0
            } else {
                let r0 = Option::Some(Rc::new(Term::Error));
                proof {
                    assert(opt_term_view(r0) == goal);
                }
                r0
            }
        },
        Value::FunctionTerm(n, c) => {
            proof {
                assert(value@ == SpecValue::FunctionTerm(n@, crate::value::fclosure_view(*c)));
                assert(crate::value::fclosure_view(*c).locals == c.locals@);
                assert(crate::value::fclosure_view(*c).term == term_view(*c.term));
            }
            if local_size < usize::MAX {
                let local = Rc::new(Value::Stuck(Head::Local(local_size), Vec::new()));
                proof {
                    assert(elims_view(Seq::<Elim>::empty()) == Seq::<SpecElim>::empty());
                }
                let mut env = c.locals.duplicate();
                env.push(local);
                let r0 = match eval_term(globals, c.universe_offset, &env, &c.term, fuel - 1) {
                    Option::None => Option::None,
                    Option::Some(ov) => {
                        match read_back_value(globals, local_size + 1, unfold, &ov, fuel - 1) {
                            Option::None => Option::None,
                            Option::Some(ot) => Option::Some(
                                Rc::new(Term::FunctionTerm(n.clone(), ot)),
                            ),
                        }
                    },
                };
                proof {
                    assert(opt_term_view(r0) == goal);
                }
                r0
            } else {
                let r0 = Option::Some(Rc::new(Term::Error));
                proof {
                    assert(opt_term_view(r0) == goal);
                }
                r0
            }
        },
        Value::RecordType(rc) => {
            proof {
                assert(value@ == SpecValue::RecordType(crate::value::rclosure_view(*rc)));
                assert(crate::value::rclosure_view(*rc).locals == rc.locals@);
                assert(crate::value::rclosure_view(*rc).entries == entries_view(rc.entries@));
                lemma_entries_view(rc.entries@);
            }
            let r0 = if rc.entries.len() <= usize::MAX - local_size {
                proof {
                    lemma_entries_view(rc.entries@);
                    assert(entries_view(rc.entries@).skip(0) =~= entries_view(rc.entries@));
                }
                match read_back_record(
                    globals,
                    local_size,
                    unfold,
                    rc.universe_offset,
                    rc.locals.duplicate(),
                    &rc.entries,
                    0,
                    fuel - 1,
                ) {
                    Option::None => Option::None,
                    Option::Some(ts) => Option::Some(Rc::new(Term::RecordType(ts))),
                }
            } else {
                Option::Some(Rc::new(Term::Error))
            };
            proof {
                assert(opt_term_view(r0) == goal);
            }
            r0
        },
        Value::RecordTerm(rc) => {
            proof {
                assert(value@ == SpecValue::RecordTerm(crate::value::rclosure_view(*rc)));
                assert(crate::value::rclosure_view(*rc).locals == rc.locals@);
                assert(crate::value::rclosure_view(*rc).entries == entries_view(rc.entries@));
                lemma_entries_view(rc.entries@);
            }
            let r0 = if rc.entries.len() <= usize::MAX - local_size {
                proof {
                    lemma_entries_view(rc.entries@);
                    assert(entries_view(rc.entries@).skip(0) =~= entries_view(rc.entries@));
                }
                match read_back_record(
                    globals,
                    local_size,
                    unfold,
                    rc.universe_offset,
                    rc.locals.duplicate(),
                    &rc.entries,
                    0,
                    fuel - 1,
                ) {
                    Option::None => Option::None,
                    Option::Some(ts) => Option::Some(Rc::new(Term::RecordTerm(ts))),
                }
            } else {
                Option::Some(Rc::new(Term::Error))
            };
            proof {
                assert(opt_term_view(r0) == goal);
            }
            r0
        },
        Value::Sequence(vs) => {
            proof {
                lemma_values_view(vs@);
                assert(values_view(vs@).skip(0) =~= values_view(vs@));
            }
            let r0 = match read_back_values(globals, local_size, unfold, vs, 0, fuel - 1) {
                Option::None => Option::None,
                Option::Some(ts) => Option::Some(Rc::new(Term::Sequence(ts))),
            };
            proof {
                assert(opt_term_view(r0) == goal);
            }
            r0
        },
        Value::Constant(c) => {
            let r0 = Option::Some(Rc::new(Term::Constant(c.duplicate())));
            proof {
                assert(opt_term_view(r0) == goal);
            }
            r0
        },
        Value::Error => {
            let r0 = Option::Some(Rc::new(Term::Error));
            proof {
                assert(opt_term_view(r0) == goal);
            }
            r0
        },
    }
}

/// Read the entries of a record closure back, from position `i` on.
fn read_back_record(
    globals: &Globals,
    local_size: usize,
    unfold: Unfold,
    universe_offset: usize,
    env: Locals,
    entries: &Vec<(String, Rc<Term>)>,
    i: usize,
    fuel: u64,
) -> (r: Option<Vec<(String, Rc<Term>)>>)
    requires
        i <= entries@.len(),
        entries@.len() - i <= usize::MAX - local_size,
    ensures
        (match r {
            Option::Some(ts) => Option::Some(entries_view(ts@)),
            Option::None => Option::None,
        }) == spec_read_back_record(
            globals@,
            local_size as nat,
            unfold,
            universe_offset as nat,
            env@,
            entries_view(entries@).skip(i as int),
            fuel as nat,
        ),
    decreases fuel as nat, 0int,
{
    proof {
        lemma_entries_view(entries@);
        if i < entries@.len() {
            assert(entries_view(entries@).skip(i + 1 as int) =~= entries_view(entries@).skip(
                i as int,
            ).skip(1));
        }
    }
    if fuel == 0 {
        Option::None
    } else if i == entries.len() {
        proof {
            assert(entries_view(entries@).skip(i as int) =~= Seq::empty());
            assert(entries_view(Seq::<(String, Rc<Term>)>::empty())
                == Seq::<(Seq<char>, SpecTerm)>::empty());
        }
        Option::Some(Vec::new())
    } else {
        match eval_term(globals, universe_offset, &env, &entries[i].1, fuel - 1) {
            Option::None => Option::None,
            Option::Some(ev) => {
                match read_back_value(globals, local_size, unfold, &ev, fuel - 1) {
                    Option::None => Option::None,
                    Option::Some(et) => {
                        let local = Rc::new(Value::Stuck(Head::Local(local_size), Vec::new()));
                        proof {
                            assert(elims_view(Seq::<Elim>::empty())
                                == Seq::<SpecElim>::empty());
                        }
                        let mut env2 = env;
                        env2.push(local);
                        match read_back_record(
                            globals,
                            local_size + 1,
                            unfold,
                            universe_offset,
                            env2,
                            entries,
                            i + 1,
                            fuel - 1,
                        ) {
                            Option::None => Option::None,
                            Option::Some(mut rest) => {
                                proof {
                                    lemma_entries_view(rest@);
                                }
                                let ghost old_rest = rest@;
                                rest.insert(0, (entries[i].0.clone(), et));
                                proof {
                                    lemma_entries_view(rest@);
                                    assert(entries_view(rest@) =~= seq![
                                        (entries@[i as int].0@, term_view(*et)),
                                    ] + entries_view(old_rest));
                                }
                                Option::Some(rest)
                            },
                        }
                    },
                }
            },
        }
    }
}

/// Read a list of values back pointwise, from position `i` on.
fn read_back_values(
    globals: &Globals,
    local_size: usize,
    unfold: Unfold,
    vs: &Vec<Rc<Value>>,
    i: usize,
    fuel: u64,
) -> (r: Option<Vec<Rc<Term>>>)
    requires
        i <= vs@.len(),
    ensures
        (match r {
            Option::Some(ts) => Option::Some(terms_view(ts@)),
            Option::None => Option::None,
        }) == spec_read_back_values(
            globals@,
            local_size as nat,
            unfold,
            values_view(vs@).skip(i as int),
            fuel as nat,
        ),
    decreases fuel as nat, 0int,
{
    proof {
        lemma_values_view(vs@);
        if i < vs@.len() {
            assert(values_view(vs@).skip(i + 1 as int) =~= values_view(vs@).skip(i as int).skip(
                1,
            ));
        }
    }
    if fuel == 0 {
        Option::None
    } else if i == vs.len() {
        proof {
            assert(values_view(vs@).skip(i as int) =~= Seq::empty());
            assert(terms_view(Seq::<Rc<Term>>::empty()) == Seq::<SpecTerm>::empty());
        }
        Option::Some(Vec::new())
    } else {
        match read_back_value(globals, local_size, unfold, &vs[i], fuel - 1) {
            Option::None => Option::None,
            Option::Some(t) => {
                match read_back_values(globals, local_size, unfold, vs, i + 1, fuel - 1) {
                    Option::None => Option::None,
                    Option::Some(mut rest) => {
                        proof {
                            lemma_terms_view(rest@);
                        }
                        let ghost old_rest = rest@;
                        rest.insert(0, t);
                        proof {
                            lemma_terms_view(rest@);
                            assert(terms_view(rest@) =~= seq![term_view(*rest@[0])] + terms_view(
                                old_rest,
                            ));
                        }
                        Option::Some(rest)
                    },
                }
            },
        }
    }
}

/// Fully normalise a term: evaluate it, then read the value back with every
/// definition unfolded. The result, when the fuel suffices, is the
/// read-back of the evaluated input under the current environment size.
pub fn normalize_term(
    globals: &Globals,
    universe_offset: usize,
    locals: &Locals,
    term: &Term,
    fuel: u64,
) -> (r: Option<Rc<Term>>)
    ensures
        match spec_eval(globals@, universe_offset as nat, locals@, term@, fuel as nat) {
            Option::None => r is None,
            Option::Some(v) => opt_term_view(r) == spec_read_back(
                globals@,
                locals@.len(),
                Unfold::Always,
                v,
                fuel as nat,
            ),
        },
{
    let size = locals.size();
    match eval_term(globals, universe_offset, locals, term, fuel) {
        Option::None => Option::None,
        Option::Some(v) => read_back_value(globals, size, Unfold::Always, &v, fuel),
    }
}

} // verus!
