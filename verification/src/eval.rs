//! The evaluator: terms to weak-head values.
//!
//! Every function here is proved to return exactly what the model in
//! [`crate::semantics`] returns: `None` when the fuel bound is exhausted,
//! and otherwise the evaluated value.

use std::rc::Rc;
use vstd::prelude::*;

use crate::semantics::spec_apply_function;
use crate::semantics::spec_apply_record;
use crate::semantics::spec_eval;
use crate::semantics::spec_eval_sequence;
use crate::semantics::spec_force;
use crate::semantics::spec_force_value;
use crate::semantics::spec_record_elim_type;
use crate::semantics::spec_record_find;
use crate::semantics::spec_record_project;
use crate::term::SpecTerm;
use crate::term::Term;
use crate::term::dup_entries;
use crate::term::lemma_entries_view;
use crate::term::lemma_terms_view;
use crate::term::rc_dup;
use crate::term::terms_view;
use crate::term::term_view;
use crate::term::entries_view;
use crate::value::Elim;
use crate::value::FunctionClosure;
use crate::value::Globals;
use crate::value::Head;
use crate::value::LazyInit;
use crate::value::LazyValue;
use crate::value::Locals;
use crate::value::RecordClosure;
use crate::value::SpecLazy;
use crate::value::spec_globals_get;
use crate::value::SpecValue;
use crate::value::Value;
use crate::value::dup_elims;
use crate::value::dup_head;
use crate::value::dup_hint;
use crate::value::lemma_elims_view_push;
use crate::value::lemma_values_view;
use crate::value::value_view;
use crate::value::values_view;

verus! {

/// The mirror of an optional evaluation result.
pub open spec fn opt_value_view(r: Option<Rc<Value>>) -> Option<SpecValue> {
    match r {
        Option::Some(v) => Option::Some(value_view(*v)),
        Option::None => Option::None,
    }
}

/// The mirror of an optional list of evaluation results.
pub open spec fn opt_values_view(r: Option<Vec<Rc<Value>>>) -> Option<Seq<SpecValue>> {
    match r {
        Option::Some(vs) => Option::Some(values_view(vs@)),
        Option::None => Option::None,
    }
}

impl FunctionClosure {
    /// Capture a universe offset, an environment snapshot and a body.
    pub fn new(universe_offset: usize, locals: Locals, term: Rc<Term>) -> (r: FunctionClosure)
        ensures
            crate::value::fclosure_view(r) == (crate::value::SpecClosure {
                universe_offset: universe_offset as nat,
                locals: locals@,
                term: term@,
            }),
    {
        FunctionClosure { universe_offset, locals, term }
    }

    /// Apply the closure to an input: evaluate the body in the captured
    /// environment extended with the input.
    pub fn apply(&self, globals: &Globals, input: Rc<Value>, fuel: u64) -> (r: Option<Rc<Value>>)
        ensures
            opt_value_view(r) == spec_eval(
                globals@,
                crate::value::fclosure_view(*self).universe_offset,
                crate::value::fclosure_view(*self).locals.push(value_view(*input)),
                crate::value::fclosure_view(*self).term,
                fuel as nat,
            ),
        decreases fuel as nat, 1int,
    {
        let mut env = self.locals.duplicate();
        env.push(input);
        eval_term(globals, self.universe_offset, &env, &self.term, fuel)
    }
}

impl RecordClosure {
    /// Capture a universe offset, an environment snapshot and the labelled
    /// entry bodies.
    pub fn new(universe_offset: usize, locals: Locals, entries: Vec<(String, Rc<Term>)>) -> (r:
        RecordClosure)
        ensures
            crate::value::rclosure_view(r) == (crate::value::SpecRecordClosure {
                universe_offset: universe_offset as nat,
                locals: locals@,
                entries: entries_view(entries@),
            }),
    {
        RecordClosure { universe_offset, locals, entries }
    }
}

impl RecordClosure {
    /// Find the entry with the given label: entries are evaluated in
    /// order, each extending the environment seen by the later ones; the
    /// inner `None` reports an absent label.
    pub fn find_entry(&self, globals: &Globals, label: &String, fuel: u64) -> (r: Option<
        Option<Rc<Value>>,
    >)
        ensures
            opt_opt_value_view(r) == spec_record_find(
                globals@,
                crate::value::rclosure_view(*self).universe_offset,
                crate::value::rclosure_view(*self).locals,
                crate::value::rclosure_view(*self).entries,
                label@,
                fuel as nat,
            ),
        decreases fuel as nat, 1int,
    {
        proof {
            assert(entries_view(self.entries@).skip(0) =~= entries_view(self.entries@));
        }
        record_find(
            globals,
            self.universe_offset,
            self.locals.duplicate(),
            &self.entries,
            0,
            label,
            fuel,
        )
    }
}

/// Entry lookup for [`RecordClosure::find_entry`], from position `i` on.
fn record_find(
    globals: &Globals,
    universe_offset: usize,
    env: Locals,
    entries: &Vec<(String, Rc<Term>)>,
    i: usize,
    label: &String,
    fuel: u64,
) -> (r: Option<Option<Rc<Value>>>)
    requires
        i <= entries@.len(),
    ensures
        opt_opt_value_view(r) == spec_record_find(
            globals@,
            universe_offset as nat,
            env@,
            entries_view(entries@).skip(i as int),
            label@,
            fuel as nat,
        ),
    decreases fuel as nat, 0int,
{
    proof {
        lemma_entries_view(entries@);
        if i < entries@.len() {
            assert(entries_view(entries@).skip(i + 1 as int) =~= entries_view(entries@).skip(
                i as int,
            ).skip(1));
        }
    }
    if fuel == 0 {
        Option::None
    } else if i == entries.len() {
        proof {
            assert(entries_view(entries@).skip(i as int) =~= Seq::empty());
        }
        Option::Some(Option::None)
    } else {
        match eval_term(globals, universe_offset, &env, &entries[i].1, fuel - 1) {
            Option::None => Option::None,
            Option::Some(v) => {
                if entries[i].0.eq(label) {
                    Option::Some(Option::Some(v))
                } else {
                    let mut env2 = env;
                    env2.push(v);
                    record_find(globals, universe_offset, env2, entries, i + 1, label, fuel - 1)
                }
            },
        }
    }
}

impl LazyValue {
    /// An eagerly supplied value.
    pub fn new(value: Rc<Value>) -> (r: LazyValue)
        ensures
            r@ == crate::value::SpecLazy::Done(Box::new(value_view(*value))),
    {
        LazyValue { init: LazyInit::Done(value) }
    }

    /// Suspend the evaluation of a term under the given universe offset and
    /// local environment.
    pub fn eval_term(universe_offset: usize, locals: Locals, term: Rc<Term>) -> (r: LazyValue)
        ensures
            r@ == crate::value::SpecLazy::EvalTerm(
                universe_offset as nat,
                locals@,
                Box::new(term@),
            ),
    {
        LazyValue { init: LazyInit::EvalTerm(universe_offset, locals, term) }
    }

    /// Suspend the application of an eliminator to another suspended
    /// computation.
    pub fn apply_elim(head: Rc<LazyValue>, elim: Elim) -> (r: LazyValue)
        ensures
            r@ == crate::value::SpecLazy::ApplyElim(
                Box::new(head@),
                Box::new(crate::value::elim_view(elim)),
            ),
    {
        LazyValue { init: LazyInit::ApplyElim(head, elim) }
    }

    /// Force the suspended computation to a weak-head value.
    pub fn force(&self, globals: &Globals, fuel: u64) -> (r: Option<Rc<Value>>)
        ensures
            opt_value_view(r) == spec_force(globals@, self@, fuel as nat),
        decreases fuel as nat, 1int,
    {
        if fuel == 0 {
            Option::None
        } else {
            match &self.init {
                LazyInit::Done(v) => {
                    let r0 = Option::Some(rc_dup(v));
                    proof {
                        assert(self@ == SpecLazy::Done(Box::new(value_view(**v))));
                        assert(opt_value_view(r0) == spec_force(globals@, self@, fuel as nat));
                    }
                    r0
                },
                LazyInit::EvalTerm(off, ls, t) => {
                    let r0 = eval_term(globals, *off, ls, t, fuel - 1);
                    proof {
                        assert(self@ == SpecLazy::EvalTerm(
                            *off as nat,
                            crate::value::locals_view(*ls),
                            Box::new(term_view(**t)),
                        ));
                        assert(opt_value_view(r0) == spec_force(globals@, self@, fuel as nat));
                    }
                    r0
                },
                LazyInit::ApplyElim(inner, e) => {
                    let r1 = inner.force(globals, fuel - 1);
                    proof {
                        assert(self@ == SpecLazy::ApplyElim(
                            Box::new(crate::value::lazy_view(**inner)),
                            Box::new(crate::value::elim_view(*e)),
                        ));
                    }
                    let r0 = match r1 {
                        Option::None => Option::None,
                        Option::Some(h) => match e {
                            Elim::Function(input) => apply_function_elim(
                                globals,
                                h,
                                rc_dup(input),
                                fuel - 1,
                            ),
                            Elim::Record(l) => apply_record_elim(globals, h, l, fuel - 1),
                        },
                    };
                    proof {
                        assert(opt_value_view(r0) == spec_force(globals@, self@, fuel as nat));
                    }
                    r0
                },
            }
        }
    }
}

impl Value {
    /// Force through unstuck values until the result is no longer unstuck.
    pub fn force(&self, globals: &Globals, fuel: u64) -> (r: Option<Rc<Value>>)
        ensures
            opt_value_view(r) == spec_force_value(globals@, self@, fuel as nat),
        decreases fuel as nat, 2int,
    {
        let ghost goal = spec_force_value(globals@, self@, fuel as nat);
        if fuel == 0 {
            Option::None
        } else {
            match self {
                Value::Unstuck(_h, _sp, lz) => {
                    let r0 = match lz.force(globals, fuel - 1) {
                        Option::None => Option::None,
                        Option::Some(w) => w.force(globals, fuel - 1),
                    };
                    proof {
                        assert(opt_value_view(r0) == goal);
                    }
                    r0
                },
                Value::Stuck(h, sp) => {
                    let r0 = Option::Some(Rc::new(Value::Stuck(dup_head(h), dup_elims(sp))));
                    proof {
                        assert(opt_value_view(r0) == goal);
                    }
                    r0
                },
                Value::TypeType(l) => {
                    let r0 = Option::Some(Rc::new(Value::TypeType(*l)));
                    proof {
                        assert(opt_value_view(r0) == goal);
                    }
                    r0
                },
                Value::FunctionType(n, i, c) => {
                    let c2 = FunctionClosure {
                        universe_offset: c.universe_offset,
                        locals: c.locals.duplicate(),
                        term: rc_dup(&c.term),
                    };
                    proof {
                        assert(crate::value::fclosure_view(c2) == crate::value::fclosure_view(*c));
                    }
                    let r0 = Option::Some(
                        Rc::new(Value::FunctionType(dup_hint(n), rc_dup(i), c2)),
                    );
                    proof {
                        assert(opt_value_view(r0) == goal);
                    }
                    r0
                },
                Value::FunctionTerm(n, c) => {
                    let c2 = FunctionClosure {
                        universe_offset: c.universe_offset,
                        locals: c.locals.duplicate(),
                        term: rc_dup(&c.term),
                    };
                    proof {
                        assert(crate::value::fclosure_view(c2) == crate::value::fclosure_view(*c));
                    }
                    let r0 = Option::Some(Rc::new(Value::FunctionTerm(n.clone(), c2)));
                    proof {
                        assert(opt_value_view(r0) == goal);
                    }
                    r0
                },
                Value::RecordType(rc) => {
                    let c2 = RecordClosure {
                        universe_offset: rc.universe_offset,
                        locals: rc.locals.duplicate(),
                        entries: dup_entries(&rc.entries),
                    };
                    proof {
                        assert(crate::value::rclosure_view(c2) == crate::value::rclosure_view(
                            *rc,
                        ));
                    }
                    let r0 = Option::Some(Rc::new(Value::RecordType(c2)));
                    proof {
                        assert(opt_value_view(r0) == goal);
                    }
                    r0
                },
                Value::RecordTerm(rc) => {
                    let c2 = RecordClosure {
                        universe_offset: rc.universe_offset,
                        locals: rc.locals.duplicate(),
                        entries: dup_entries(&rc.entries),
                    };
                    proof {
                        assert(crate::value::rclosure_view(c2) == crate::value::rclosure_view(
                            *rc,
                        ));
                    }
                    let r0 = Option::Some(Rc::new(Value::RecordTerm(c2)));
                    proof {
                        assert(opt_value_view(r0) == goal);
                    }
                    r0
                },
                Value::Sequence(vs) => {
                    let mut out: Vec<Rc<Value>> = Vec::new();
                    let mut i: usize = 0;
                    proof {
                        lemma_values_view(vs@);
                    }
                    while i < vs.len()
                        invariant
                            i <= vs.len(),
                            out@.len() == i,
                            forall|j: int| 0 <= j < i ==> #[trigger] out@[j] == vs@[j],
                        decreases vs.len() - i,
                    {
                        let v = rc_dup(&vs[i]);
                        out.push(v);
                        i = i + 1;
                    }
                    proof {
                        assert(out@ =~= vs@);
                    }
                    let r0 = Option::Some(Rc::new(Value::Sequence(out)));
                    proof {
                        assert(opt_value_view(r0) == goal);
                    }
                    r0
                },
                Value::Constant(c) => {
                    let r0 = Option::Some(Rc::new(Value::Constant(c.duplicate())));
                    proof {
                        assert(opt_value_view(r0) == goal);
                    }
                    r0
                },
                Value::Error => {
                    let r0 = Option::Some(Rc::new(Value::Error));
                    proof {
                        assert(opt_value_view(r0) == goal);
                    }
                    r0
                },
            }
        }
    }
}

/// Evaluate a term into a weak-head value.
pub fn eval_term(
    globals: &Globals,
    universe_offset: usize,
    locals: &Locals,
    term: &Term,
    fuel: u64,
) -> (r: Option<Rc<Value>>)
    ensures
        opt_value_view(r) == spec_eval(
            globals@,
            universe_offset as nat,
            locals@,
            term@,
            fuel as nat,
        ),
    decreases fuel as nat, 0int,
{
    if fuel == 0 {
        return Option::None;
    }
    let ghost goal = spec_eval(globals@, universe_offset as nat, locals@, term@, fuel as nat);
    match term {
        Term::Global(name) => match globals.get(name) {
            Option::Some(entry) => match &entry.1 {
                Option::Some(def) => {
                    let head = Head::Global(name.clone(), universe_offset);
                    let lazy = LazyValue::eval_term(
                        universe_offset,
                        locals.duplicate(),
                        rc_dup(def),
                    );
                    let r0 = Option::Some(
                        Rc::new(Value::Unstuck(head, Vec::new(), Rc::new(lazy))),
                    );
                    proof {
                        assert(term@ == SpecTerm::Global(name@));
                        assert(spec_globals_get(globals@, name@) == Option::Some(
                            (term_view(*entry.0), Option::Some(term_view(**def))),
                        ));
                        assert(crate::value::head_view(head) == crate::value::SpecHead::Global(
                            name@,
                            universe_offset as nat,
                        ));
                        assert(lazy@ == SpecLazy::EvalTerm(
                            universe_offset as nat,
                            locals@,
                            Box::new(term_view(**def)),
                        ));
                        assert(crate::value::elims_view(Seq::<Elim>::empty())
                            == Seq::<crate::value::SpecElim>::empty());
                        assert(opt_value_view(r0) == Option::Some(
                            SpecValue::Unstuck(
                                crate::value::head_view(head),
                                Seq::empty(),
                                Box::new(lazy@),
                            ),
                        ));
                        assert(opt_value_view(r0) == goal);
                    }
                    r0
                },
                Option::None => {
                    let head = Head::Global(name.clone(), universe_offset);
                    let r0 = Option::Some(Rc::new(Value::Stuck(head, Vec::new())));
                    proof {
                        assert(crate::value::elims_view(Seq::<Elim>::empty())
                            == Seq::<crate::value::SpecElim>::empty());
                        assert(opt_value_view(r0) == goal);
                    }
                    r0
                },
            },
            Option::None => {
                let head = Head::Global(name.clone(), universe_offset);
                let r0 = Option::Some(Rc::new(Value::Stuck(head, Vec::new())));
                proof {
                    assert(crate::value::elims_view(Seq::<Elim>::empty())
                        == Seq::<crate::value::SpecElim>::empty());
                    assert(opt_value_view(r0) == goal);
                }
                r0
            },
        },
        Term::Local(index) => {
            let r0 = match locals.get(*index) {
                Option::Some(v) => Option::Some(rc_dup(v)),
                Option::None => Option::Some(Rc::new(Value::Error)),
            };
            proof {
                assert(opt_value_view(r0) == goal);
            }
            r0
        },
        Term::Ann(t, _ty) => {
            let r0 = eval_term(globals, universe_offset, locals, t, fuel - 1);
            proof {
                assert(opt_value_view(r0) == goal);
            }
            r0
        },
        Term::TypeType(l) => {
            let r0 = match l.checked_add(universe_offset) {
                Option::Some(level) => Option::Some(Rc::new(Value::TypeType(level))),
                Option::None => Option::Some(Rc::new(Value::Error)),
            };
            proof {
                assert(opt_value_view(r0) == goal);
            }
            r0
        },
        Term::Lift(t, k) => {
            let r0 = match universe_offset.checked_add(*k) {
                Option::Some(off) => eval_term(globals, off, locals, t, fuel - 1),
                Option::None => Option::Some(Rc::new(Value::Error)),
            };
            proof {
                assert(opt_value_view(r0) == goal);
            }
            r0
        },
        Term::FunctionType(n, i, o) => {
            let r0 = match eval_term(globals, universe_offset, locals, i, fuel - 1) {
                Option::None => Option::None,
                Option::Some(iv) => Option::Some(
                    Rc::new(
                        Value::FunctionType(
                            dup_hint(n),
                            iv,
                            FunctionClosure::new(universe_offset, locals.duplicate(), rc_dup(o)),
                        ),
                    ),
                ),
            };
            proof {
                assert(opt_value_view(r0) == goal);
            }
            r0
        },
        Term::FunctionTerm(n, b) => {
            let r0 = Option::Some(
                Rc::new(
                    Value::FunctionTerm(
                        n.clone(),
                        FunctionClosure::new(universe_offset, locals.duplicate(), rc_dup(b)),
                    ),
                ),
            );
            proof {
                assert(opt_value_view(r0) == goal);
            }
            r0
        },
        Term::FunctionElim(h, a) => {
            let r0 = match eval_term(globals, universe_offset, locals, h, fuel - 1) {
                Option::None => Option::None,
                Option::Some(hv) => {
                    let input = LazyValue::eval_term(
                        universe_offset,
                        locals.duplicate(),
                        rc_dup(a),
                    );
                    apply_function_elim(globals, hv, Rc::new(input), fuel - 1)
                },
            };
            proof {
                assert(opt_value_view(r0) == goal);
            }
            r0
        },
        Term::RecordType(es) => {
            let r0 = Option::Some(
                Rc::new(
                    Value::RecordType(
                        RecordClosure::new(universe_offset, locals.duplicate(), dup_entries(es)),
                    ),
                ),
            );
            proof {
                assert(opt_value_view(r0) == goal);
            }
            r0
        },
        Term::RecordTerm(es) => {
            let r0 = Option::Some(
                Rc::new(
                    Value::RecordTerm(
                        RecordClosure::new(universe_offset, locals.duplicate(), dup_entries(es)),
                    ),
                ),
            );
            proof {
                assert(opt_value_view(r0) == goal);
            }
            r0
        },
        Term::RecordElim(h, l) => {
            let r0 = match eval_term(globals, universe_offset, locals, h, fuel - 1) {
                Option::None => Option::None,
                Option::Some(hv) => apply_record_elim(globals, hv, l, fuel - 1),
            };
            proof {
                assert(opt_value_view(r0) == goal);
            }
            r0
        },
        Term::Sequence(ts) => {
            proof {
                assert(terms_view(ts@).skip(0) =~= terms_view(ts@));
            }
            let r0 = match eval_sequence(globals, universe_offset, locals, ts, 0, fuel - 1) {
                Option::None => Option::None,
                Option::Some(vs) => Option::Some(Rc::new(Value::Sequence(vs))),
            };
            proof {
                assert(opt_value_view(r0) == goal);
            }
            r0
        },
        Term::Constant(c) => {
            let r0 = Option::Some(Rc::new(Value::Constant(c.duplicate())));
            proof {
                assert(opt_value_view(r0) == goal);
            }
            r0
        },
        Term::Error => {
            let r0 = Option::Some(Rc::new(Value::Error));
            proof {
                assert(opt_value_view(r0) == goal);
            }
            r0
        },
    }
}

/// Evaluate the entries of a sequence literal from position `i` on.
fn eval_sequence(
    globals: &Globals,
    universe_offset: usize,
    locals: &Locals,
    ts: &Vec<Rc<Term>>,
    i: usize,
    fuel: u64,
) -> (r: Option<Vec<Rc<Value>>>)
    requires
        i <= ts@.len(),
    ensures
        opt_values_view(r) == spec_eval_sequence(
            globals@,
            universe_offset as nat,
            locals@,
            terms_view(ts@).skip(i as int),
            fuel as nat,
        ),
    decreases fuel as nat, 0int,
{
    proof {
        lemma_terms_view(ts@);
    }
    if fuel == 0 {
        Option::None
    } else if i == ts.len() {
        proof {
            assert(terms_view(ts@).skip(i as int) =~= Seq::empty());
        }
        Option::Some(Vec::new())
    } else {
        let r0 = eval_term(globals, universe_offset, locals, &ts[i], fuel - 1);
        proof {
            assert(terms_view(ts@).skip(i as int).len() > 0);
            assert(terms_view(ts@).skip(i as int)[0] == terms_view(ts@)[i as int]);
            assert(terms_view(ts@)[i as int] == term_view(*ts@[i as int]));
            assert(opt_value_view(r0) == spec_eval(
                globals@,
                universe_offset as nat,
                locals@,
                terms_view(ts@).skip(i as int)[0],
                (fuel - 1) as nat,
            ));
        }
        proof {
            assert(terms_view(ts@).skip(i + 1 as int) =~= terms_view(ts@).skip(i as int).skip(1));
        }
        match r0 {
            Option::None => Option::None,
            Option::Some(v) => {
                match eval_sequence(globals, universe_offset, locals, ts, i + 1, fuel - 1) {
                    Option::None => Option::None,
                    Option::Some(mut rest) => {
                        proof {
                            lemma_values_view(rest@);
                        }
                        let ghost old_rest = rest@;
                        rest.insert(0, v);
                        proof {
                            lemma_values_view(rest@);
                            assert(values_view(rest@) =~= seq![value_view(*v)] + values_view(
                                old_rest,
                            ));
                        }
                        Option::Some(rest)
                    },
                }
            },
        }
    }
}

/// Apply a function eliminator to a head value.
pub fn apply_function_elim(
    globals: &Globals,
    head: Rc<Value>,
    input: Rc<LazyValue>,
    fuel: u64,
) -> (r: Option<Rc<Value>>)
    ensures
        opt_value_view(r) == spec_apply_function(globals@, head@, input@, fuel as nat),
    decreases fuel as nat, 0int,
{
    if fuel == 0 {
        return Option::None;
    }
    match &*head {
        Value::Stuck(h, sp) => {
            let mut spine = dup_elims(sp);
            let h2 = dup_head(h);
            let ghost sp0 = spine@;
            spine.push(Elim::Function(input));
            proof {
                lemma_elims_view_push(sp0, spine@.last());
            }
            Option::Some(Rc::new(Value::Stuck(h2, spine)))
        },
        Value::Unstuck(h, sp, lz) => {
            let mut spine = dup_elims(sp);
            let h2 = dup_head(h);
            let payload = LazyValue::apply_elim(rc_dup(lz), Elim::Function(rc_dup(&input)));
            let ghost sp0 = spine@;
            spine.push(Elim::Function(input));
            proof {
                lemma_elims_view_push(sp0, spine@.last());
            }
            Option::Some(Rc::new(Value::Unstuck(h2, spine, Rc::new(payload))))
        },
        Value::FunctionTerm(_n, closure) => match input.force(globals, fuel - 1) {
            Option::None => Option::None,
            Option::Some(v) => closure.apply(globals, v, fuel - 1),
        },
        _ => Option::Some(Rc::new(Value::Error)),
    }
}

/// Apply a record projection to a head value.
pub fn apply_record_elim(
    globals: &Globals,
    head: Rc<Value>,
    label: &String,
    fuel: u64,
) -> (r: Option<Rc<Value>>)
    ensures
        opt_value_view(r) == spec_apply_record(globals@, head@, label@, fuel as nat),
    decreases fuel as nat, 0int,
{
    if fuel == 0 {
        return Option::None;
    }
    match &*head {
        Value::Stuck(h, sp) => {
            let mut spine = dup_elims(sp);
            let h2 = dup_head(h);
            let ghost sp0 = spine@;
            spine.push(Elim::Record(label.clone()));
            proof {
                lemma_elims_view_push(sp0, spine@.last());
            }
            Option::Some(Rc::new(Value::Stuck(h2, spine)))
        },
        Value::Unstuck(h, sp, lz) => {
            let mut spine = dup_elims(sp);
            let h2 = dup_head(h);
            let payload = LazyValue::apply_elim(rc_dup(lz), Elim::Record(label.clone()));
            let ghost sp0 = spine@;
            spine.push(Elim::Record(label.clone()));
            proof {
                lemma_elims_view_push(sp0, spine@.last());
            }
            Option::Some(Rc::new(Value::Unstuck(h2, spine, Rc::new(payload))))
        },
        Value::RecordTerm(rc) => {
            proof {
                assert(entries_view(rc.entries@).skip(0) =~= entries_view(rc.entries@));
            }
            let rr = record_project(
                globals,
                rc.universe_offset,
                rc.locals.duplicate(),
                &rc.entries,
                0,
                label,
                fuel - 1,
            );
            proof {
                assert(head@ == SpecValue::RecordTerm(crate::value::rclosure_view(*rc)));
                assert(opt_value_view(rr) == spec_record_project(
                    globals@,
                    rc.universe_offset as nat,
                    crate::value::locals_view(rc.locals),
                    entries_view(rc.entries@),
                    label@,
                    (fuel - 1) as nat,
                ));
                assert(opt_value_view(rr) == spec_apply_record(
                    globals@,
                    head@,
                    label@,
                    fuel as nat,
                ));
            }
            rr
        },
        _ => Option::Some(Rc::new(Value::Error)),
    }
}

/// Project a label out of the entries of a record introduction, from
/// position `i` on, extending the environment with each earlier entry.
fn record_project(
    globals: &Globals,
    universe_offset: usize,
    env: Locals,
    entries: &Vec<(String, Rc<Term>)>,
    i: usize,
    label: &String,
    fuel: u64,
) -> (r: Option<Rc<Value>>)
    requires
        i <= entries@.len(),
    ensures
        opt_value_view(r) == spec_record_project(
            globals@,
            universe_offset as nat,
            env@,
            entries_view(entries@).skip(i as int),
            label@,
            fuel as nat,
        ),
    decreases fuel as nat, 0int,
{
    proof {
        lemma_entries_view(entries@);
    }
    if fuel == 0 {
        Option::None
    } else if i == entries.len() {
        proof {
            assert(entries_view(entries@).skip(i as int) =~= Seq::empty());
        }
        Option::Some(Rc::new(Value::Error))
    } else {
        proof {
            assert(entries_view(entries@).skip(i + 1 as int) =~= entries_view(entries@).skip(
                i as int,
            ).skip(1));
        }
        match eval_term(globals, universe_offset, &env, &entries[i].1, fuel - 1) {
            Option::None => Option::None,
            Option::Some(v) => {
                if entries[i].0.eq(label) {
                    Option::Some(v)
                } else {
                    let mut env2 = env;
                    env2.push(v);
                    record_project(globals, universe_offset, env2, entries, i + 1, label, fuel - 1)
                }
            },
        }
    }
}

/// The mirror of an optional field-lookup result.
pub open spec fn opt_opt_value_view(r: Option<Option<Rc<Value>>>) -> Option<Option<SpecValue>> {
    match r {
        Option::Some(Option::Some(v)) => Option::Some(Option::Some(value_view(*v))),
        Option::Some(Option::None) => Option::Some(Option::None),
        Option::None => Option::None,
    }
}

/// The type of a record elimination: looks `label` up in a record type
/// closure, substituting earlier fields by their projections from
/// `head_value`. The inner `None` reports an absent label.
pub fn record_elim_type(
    globals: &Globals,
    head_value: &Rc<Value>,
    label: &String,
    closure: &RecordClosure,
    fuel: u64,
) -> (r: Option<Option<Rc<Value>>>)
    ensures
        opt_opt_value_view(r) == spec_record_elim_type(
            globals@,
            (**head_value)@,
            crate::value::rclosure_view(*closure).universe_offset,
            crate::value::rclosure_view(*closure).locals,
            crate::value::rclosure_view(*closure).entries,
            label@,
            fuel as nat,
        ),
    decreases fuel as nat, 1int,
{
    proof {
        assert(entries_view(closure.entries@).skip(0) =~= entries_view(closure.entries@));
    }
    record_elim_type_from(
        globals,
        head_value,
        closure.universe_offset,
        closure.locals.duplicate(),
        &closure.entries,
        0,
        label,
        fuel,
    )
}

/// Field lookup for [`record_elim_type`], from position `i` on.
fn record_elim_type_from(
    globals: &Globals,
    head_value: &Rc<Value>,
    universe_offset: usize,
    env: Locals,
    entries: &Vec<(String, Rc<Term>)>,
    i: usize,
    label: &String,
    fuel: u64,
) -> (r: Option<Option<Rc<Value>>>)
    requires
        i <= entries@.len(),
    ensures
        opt_opt_value_view(r) == spec_record_elim_type(
            globals@,
            (**head_value)@,
            universe_offset as nat,
            env@,
            entries_view(entries@).skip(i as int),
            label@,
            fuel as nat,
        ),
    decreases fuel as nat, 0int,
{
    proof {
        lemma_entries_view(entries@);
    }
    if fuel == 0 {
        Option::None
    } else if i == entries.len() {
        proof {
            assert(entries_view(entries@).skip(i as int) =~= Seq::empty());
        }
        Option::Some(Option::None)
    } else {
        proof {
            assert(entries_view(entries@).skip(i + 1 as int) =~= entries_view(entries@).skip(
                i as int,
            ).skip(1));
        }
        match eval_term(globals, universe_offset, &env, &entries[i].1, fuel - 1) {
            Option::None => Option::None,
            Option::Some(tv) => {
                if entries[i].0.eq(label) {
                    Option::Some(Option::Some(tv))
                } else {
                    match apply_record_elim(globals, rc_dup(head_value), &entries[i].0, fuel - 1) {
                        Option::None => Option::None,
                        Option::Some(pv) => {
                            let mut env2 = env;
                            env2.push(pv);
                            record_elim_type_from(
                                globals,
                                head_value,
                                universe_offset,
                                env2,
                                entries,
                                i + 1,
                                label,
                                fuel - 1,
                            )
                        },
                    }
                }
            },
        }
    }
}

} // verus!
