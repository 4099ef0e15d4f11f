//! The semantic domain: values in weak-head normal form.
//!
//! A value is either *stuck* (a neutral application whose head cannot reduce),
//! *unstuck* (a glued value: originally stuck, now known to reduce to a lazy
//! payload), or an ordinary weak-head constructor. Closures capture a
//! universe offset, a snapshot of the local environment, and an unevaluated
//! body; lazy values suspend either the evaluation of a term or the
//! application of an eliminator.

use std::rc::Rc;
use vstd::prelude::*;

use crate::constant::Constant;
use crate::constant::SpecConstant;
use crate::term::SpecTerm;
use crate::term::Term;
use crate::term::entries_view;
use crate::term::rc_dup;
use crate::term::term_view;

verus! {

/// The head of a stuck (neutral) value: a variable that cannot reduce in the
/// current scope.
pub enum Head {
    /// A global variable together with the universe offset it was evaluated
    /// under.
    Global(String, usize),
    /// A local variable, as a de Bruijn level (0 is the outermost binder).
    Local(usize),
}

/// An eliminator in the spine of a stuck or unstuck value.
pub enum Elim {
    /// Function application to a lazily evaluated argument.
    Function(Rc<LazyValue>),
    /// Record field projection.
    Record(String),
}

/// A local environment: an ordered sequence of values, grown on the right
/// when entering a binder. Entry `get(i)` is counted from the innermost
/// (right) end.
pub struct Locals {
    pub entries: Vec<Rc<Value>>,
}

/// Function closure: the universe offset and locals at capture time, plus the
/// unevaluated body.
pub struct FunctionClosure {
    pub universe_offset: usize,
    pub locals: Locals,
    pub term: Rc<Term>,
}

/// Record closure: as [`FunctionClosure`], but carrying the whole list of
/// labelled entry bodies, iterated entry by entry.
pub struct RecordClosure {
    pub universe_offset: usize,
    pub locals: Locals,
    pub entries: Vec<(String, Rc<Term>)>,
}

/// A suspended computation: either an already-computed value, a term to
/// evaluate in a captured environment, or an eliminator to apply to another
/// suspended computation.
pub struct LazyValue {
    pub init: LazyInit,
}

/// The initialiser of a [`LazyValue`].
pub enum LazyInit {
    /// An eagerly supplied value.
    Done(Rc<Value>),
    /// Evaluate a term under a universe offset and captured locals.
    EvalTerm(usize, Locals, Rc<Term>),
    /// Apply an eliminator to the value of another suspended computation.
    ApplyElim(Rc<LazyValue>, Elim),
}

/// A value of the core language, in weak-head normal form.
pub enum Value {
    /// A computation stuck on a head that cannot reduce, with a spine of
    /// pending eliminators.
    Stuck(Head, Vec<Elim>),
    /// A glued value: previously stuck, but its definition is known. The head
    /// and spine are kept to short-circuit conversion checking and keep
    /// read-back compact; the payload holds the reduction.
    Unstuck(Head, Vec<Elim>, Rc<LazyValue>),
    /// The type of types.
    TypeType(usize),
    /// Dependent function type: display hint, eagerly evaluated input type,
    /// and a closure for the output type.
    FunctionType(Option<String>, Rc<Value>, FunctionClosure),
    /// Function abstraction.
    FunctionTerm(String, FunctionClosure),
    /// Dependent record type.
    RecordType(RecordClosure),
    /// Record introduction.
    RecordTerm(RecordClosure),
    /// Ordered sequence of values.
    Sequence(Vec<Rc<Value>>),
    /// Primitive constant.
    Constant(Constant),
    /// Error sentinel; absorbs every operation.
    Error,
}

/// Describes how definitions are unfolded when reading back values.
#[derive(Clone, Copy)]
pub enum Unfold {
    /// Keep glued values stuck, for compact output.
    Never,
    /// Unfold every glued value to its payload, fully normalising the term.
    Always,
}

/// The global environment: names bound to a type and an optional definition.
/// A definition-less global is an abstract constant.
pub struct Globals {
    pub entries: Vec<(String, (Rc<Term>, Option<Rc<Term>>))>,
}

// --- Ghost mirrors -------------------------------------------------------

/// Mirror of [`Head`].
pub ghost enum SpecHead {
    Global(Seq<char>, nat),
    Local(nat),
}

/// Mirror of [`Elim`].
pub ghost enum SpecElim {
    Function(Box<SpecLazy>),
    Record(Seq<char>),
}

/// Mirror of [`FunctionClosure`].
pub ghost struct SpecClosure {
    pub universe_offset: nat,
    pub locals: Seq<SpecValue>,
    pub term: SpecTerm,
}

/// Mirror of [`RecordClosure`].
pub ghost struct SpecRecordClosure {
    pub universe_offset: nat,
    pub locals: Seq<SpecValue>,
    pub entries: Seq<(Seq<char>, SpecTerm)>,
}

/// Mirror of [`LazyValue`].
pub ghost enum SpecLazy {
    Done(Box<SpecValue>),
    EvalTerm(nat, Seq<SpecValue>, Box<SpecTerm>),
    ApplyElim(Box<SpecLazy>, Box<SpecElim>),
}

/// Mirror of [`Value`].
pub ghost enum SpecValue {
    Stuck(SpecHead, Seq<SpecElim>),
    Unstuck(SpecHead, Seq<SpecElim>, Box<SpecLazy>),
    TypeType(nat),
    FunctionType(Option<Seq<char>>, Box<SpecValue>, SpecClosure),
    FunctionTerm(Seq<char>, SpecClosure),
    RecordType(SpecRecordClosure),
    RecordTerm(SpecRecordClosure),
    Sequence(Seq<SpecValue>),
    Constant(SpecConstant),
    Error,
}

/// Mirror of [`Globals`].
pub ghost struct SpecGlobals {
    pub entries: Seq<(Seq<char>, (SpecTerm, Option<SpecTerm>))>,
}

// --- View functions ------------------------------------------------------

/// Mirror of an optional display hint.
pub open spec fn hint_view(n: Option<String>) -> Option<Seq<char>> {
    match n {
        Option::Some(s) => Option::Some(s@),
        Option::None => Option::None,
    }
}

/// Mirror of a [`Head`].
pub open spec fn head_view(h: Head) -> SpecHead {
    match h {
        Head::Global(n, o) => SpecHead::Global(n@, o as nat),
        Head::Local(l) => SpecHead::Local(l as nat),
    }
}

/// Mirror of an [`Elim`].
pub open spec fn elim_view(e: Elim) -> SpecElim
    decreases e,
{
    match e {
        Elim::Function(lz) => SpecElim::Function(Box::new(lazy_view(*lz))),
        Elim::Record(l) => SpecElim::Record(l@),
    }
}

/// Mirror of a spine of eliminators.
pub open spec fn elims_view(s: Seq<Elim>) -> Seq<SpecElim>
    decreases s,
{
    if s.len() == 0 {
        Seq::empty()
    } else {
        elims_view(s.drop_last()).push(elim_view(s.last()))
    }
}

/// Mirror of a list of values.
pub open spec fn values_view(s: Seq<Rc<Value>>) -> Seq<SpecValue>
    decreases s,
{
    if s.len() == 0 {
        Seq::empty()
    } else {
        values_view(s.drop_last()).push(value_view(*s.last()))
    }
}

/// Mirror of a local environment.
pub open spec fn locals_view(ls: Locals) -> Seq<SpecValue>
    decreases ls,
{
    values_view(ls.entries@)
}

/// Mirror of a [`FunctionClosure`].
pub open spec fn fclosure_view(c: FunctionClosure) -> SpecClosure
    decreases c,
{
    SpecClosure {
        universe_offset: c.universe_offset as nat,
        locals: locals_view(c.locals),
        term: term_view(*c.term),
    }
}

/// Mirror of a [`RecordClosure`].
pub open spec fn rclosure_view(c: RecordClosure) -> SpecRecordClosure
    decreases c,
{
    SpecRecordClosure {
        universe_offset: c.universe_offset as nat,
        locals: locals_view(c.locals),
        entries: entries_view(c.entries@),
    }
}

/// Mirror of a [`LazyValue`].
pub open spec fn lazy_view(lz: LazyValue) -> SpecLazy
    decreases lz,
{
    match lz.init {
        LazyInit::Done(v) => SpecLazy::Done(Box::new(value_view(*v))),
        LazyInit::EvalTerm(off, ls, t) => SpecLazy::EvalTerm(
            off as nat,
            locals_view(ls),
            Box::new(term_view(*t)),
        ),
        LazyInit::ApplyElim(inner, e) => SpecLazy::ApplyElim(
            Box::new(lazy_view(*inner)),
            Box::new(elim_view(e)),
        ),
    }
}

/// Mirror of a [`Value`].
pub open spec fn value_view(v: Value) -> SpecValue
    decreases v,
{
    match v {
        Value::Stuck(h, sp) => SpecValue::Stuck(head_view(h), elims_view(sp@)),
        Value::Unstuck(h, sp, lz) => SpecValue::Unstuck(
            head_view(h),
            elims_view(sp@),
            Box::new(lazy_view(*lz)),
        ),
        Value::TypeType(l) => SpecValue::TypeType(l as nat),
        Value::FunctionType(n, i, c) => SpecValue::FunctionType(
            hint_view(n),
            Box::new(value_view(*i)),
            fclosure_view(c),
        ),
        Value::FunctionTerm(n, c) => SpecValue::FunctionTerm(n@, fclosure_view(c)),
        Value::RecordType(rc) => SpecValue::RecordType(rclosure_view(rc)),
        Value::RecordTerm(rc) => SpecValue::RecordTerm(rclosure_view(rc)),
        Value::Sequence(vs) => SpecValue::Sequence(values_view(vs@)),
        Value::Constant(c) => SpecValue::Constant(c@),
        Value::Error => SpecValue::Error,
    }
}

/// Mirror of the list of global entries.
pub open spec fn gentries_view(
    s: Seq<(String, (Rc<Term>, Option<Rc<Term>>))>,
) -> Seq<(Seq<char>, (SpecTerm, Option<SpecTerm>))>
    decreases s,
{
    if s.len() == 0 {
        Seq::empty()
    } else {
        gentries_view(s.drop_last()).push(
            (
                s.last().0@,
                (
                    term_view(*s.last().1.0),
                    match s.last().1.1 {
                        Option::Some(d) => Option::Some(term_view(*d)),
                        Option::None => Option::None,
                    },
                ),
            ),
        )
    }
}

impl View for Value {
    type V = SpecValue;

    open spec fn view(&self) -> SpecValue {
        value_view(*self)
    }
}

impl View for Locals {
    type V = Seq<SpecValue>;

    open spec fn view(&self) -> Seq<SpecValue> {
        locals_view(*self)
    }
}

impl View for LazyValue {
    type V = SpecLazy;

    open spec fn view(&self) -> SpecLazy {
        lazy_view(*self)
    }
}

impl View for Globals {
    type V = SpecGlobals;

    open spec fn view(&self) -> SpecGlobals {
        SpecGlobals { entries: gentries_view(self.entries@) }
    }
}

// --- View lemmas ---------------------------------------------------------

/// Pointwise description of [`elims_view`].
pub proof fn lemma_elims_view(s: Seq<Elim>)
    ensures
        elims_view(s).len() == s.len(),
        forall|i: int| 0 <= i < s.len() ==> #[trigger] elims_view(s)[i] == elim_view(s[i]),
    decreases s,
{
    if s.len() > 0 {
        lemma_elims_view(s.drop_last());
    }
}

/// Pointwise description of [`values_view`].
pub proof fn lemma_values_view(s: Seq<Rc<Value>>)
    ensures
        values_view(s).len() == s.len(),
        forall|i: int| 0 <= i < s.len() ==> #[trigger] values_view(s)[i] == value_view(*s[i]),
    decreases s,
{
    if s.len() > 0 {
        lemma_values_view(s.drop_last());
    }
}

/// Pointwise description of [`gentries_view`].
pub proof fn lemma_gentries_view(s: Seq<(String, (Rc<Term>, Option<Rc<Term>>))>)
    ensures
        gentries_view(s).len() == s.len(),
        forall|i: int|
            0 <= i < s.len() ==> #[trigger] gentries_view(s)[i] == (
                s[i].0@,
                (
                    term_view(*s[i].1.0),
                    match s[i].1.1 {
                        Option::Some(d) => Option::Some(term_view(*d)),
                        Option::None => Option::None,
                    },
                ),
            ),
    decreases s,
{
    if s.len() > 0 {
        lemma_gentries_view(s.drop_last());
    }
}

/// Mirroring distributes over pushing an eliminator onto a spine.
pub proof fn lemma_elims_view_push(s: Seq<Elim>, e: Elim)
    ensures
        elims_view(s.push(e)) == elims_view(s).push(elim_view(e)),
{
    assert(s.push(e).drop_last() =~= s);
}

// --- Spec-level lookups --------------------------------------------------

/// Lookup in the mirrored global environment: the first entry with the given
/// name, scanning from the left.
pub open spec fn spec_globals_get(
    g: SpecGlobals,
    name: Seq<char>,
) -> Option<(SpecTerm, Option<SpecTerm>)>
    decreases g.entries.len(),
{
    if g.entries.len() == 0 {
        Option::None
    } else if g.entries[0].0 == name {
        Option::Some(g.entries[0].1)
    } else {
        spec_globals_get(SpecGlobals { entries: g.entries.skip(1) }, name)
    }
}

/// Lookup in the mirrored local environment, by de Bruijn index counted from
/// the innermost (right) end.
pub open spec fn spec_locals_get(env: Seq<SpecValue>, index: nat) -> Option<SpecValue> {
    if index < env.len() {
        Option::Some(env[env.len() - 1 - index])
    } else {
        Option::None
    }
}

// --- Executable helpers --------------------------------------------------

/// Share a head.
pub fn dup_head(h: &Head) -> (r: Head)
    ensures
        head_view(r) == head_view(*h),
{
    match h {
        Head::Global(n, o) => Head::Global(n.clone(), *o),
        Head::Local(l) => Head::Local(*l),
    }
}

/// Share an eliminator.
pub fn dup_elim(e: &Elim) -> (r: Elim)
    ensures
        elim_view(r) == elim_view(*e),
{
    match e {
        Elim::Function(lz) => Elim::Function(rc_dup(lz)),
        Elim::Record(l) => Elim::Record(l.clone()),
    }
}

/// Share a spine of eliminators.
pub fn dup_elims(s: &Vec<Elim>) -> (r: Vec<Elim>)
    ensures
        elims_view(r@) == elims_view(s@),
{
    let mut out: Vec<Elim> = Vec::new();
    let mut i: usize = 0;
    proof {
        lemma_elims_view(s@);
    }
    while i < s.len()
        invariant
            i <= s.len(),
            out@.len() == i,
            elims_view(s@).len() == s@.len(),
            forall|j: int| 0 <= j < s@.len() ==> #[trigger] elims_view(s@)[j] == elim_view(s@[j]),
            forall|j: int| 0 <= j < i ==> elim_view(#[trigger] out@[j]) == elim_view(s@[j]),
        decreases s.len() - i,
    {
        let e = dup_elim(&s[i]);
        out.push(e);
        i = i + 1;
    }
    proof {
        lemma_elims_view(out@);
        assert(elims_view(out@) =~= elims_view(s@));
    }
    out
}

/// Share a display hint.
pub fn dup_hint(n: &Option<String>) -> (r: Option<String>)
    ensures
        hint_view(r) == hint_view(*n),
{
    match n {
        Option::Some(s) => Option::Some(s.clone()),
        Option::None => Option::None,
    }
}

impl Locals {
    /// An empty local environment.
    pub fn new() -> (r: Locals)
        ensures
            r@ == Seq::<SpecValue>::empty(),
    {
        Locals { entries: Vec::new() }
    }

    /// The number of entries.
    pub fn size(&self) -> (r: usize)
        ensures
            r == self@.len(),
    {
        proof {
            lemma_values_view(self.entries@);
        }
        self.entries.len()
    }

    /// The de Bruijn level that the next pushed binding will occupy.
    pub fn next_level(&self) -> (r: usize)
        ensures
            r == self@.len(),
    {
        self.size()
    }

    /// The entry at the given de Bruijn index, counted from the innermost
    /// binder.
    pub fn get(&self, index: usize) -> (r: Option<&Rc<Value>>)
        ensures
            match r {
                Option::Some(v) => spec_locals_get(self@, index as nat)
                    == Option::Some(value_view(**v)),
                Option::None => spec_locals_get(self@, index as nat) is None,
            },
    {
        proof {
            lemma_values_view(self.entries@);
        }
        if index < self.entries.len() {
            Option::Some(&self.entries[self.entries.len() - 1 - index])
        } else {
            Option::None
        }
    }

    /// Push a value onto the inner (right) end.
    pub fn push(&mut self, value: Rc<Value>)
        ensures
            final(self)@ == old(self)@.push(value_view(*value)),
    {
        proof {
            lemma_values_view(self.entries@);
        }
        self.entries.push(value);
        proof {
            lemma_values_view(self.entries@);
            assert(self.entries@.drop_last() =~= old(self).entries@);
        }
    }

    /// Pop the innermost value.
    pub fn pop(&mut self) -> (r: Option<Rc<Value>>)
        ensures
            old(self)@.len() == 0 ==> final(self)@ == old(self)@ && r is None,
            old(self)@.len() > 0 ==> final(self)@ == old(self)@.drop_last() && match r {
                Option::Some(v) => value_view(*v) == old(self)@.last(),
                Option::None => false,
            },
    {
        proof {
            lemma_values_view(self.entries@);
        }
        if self.entries.len() == 0 {
            Option::None
        } else {
            let r = self.entries.pop();
            proof {
                lemma_values_view(self.entries@);
                assert(values_view(self.entries@) =~= values_view(
                    old(self).entries@.drop_last(),
                ));
            }
            r
        }
    }

    /// A snapshot of the environment: the same entries, shared.
    pub fn duplicate(&self) -> (r: Locals)
        ensures
            r@ == self@,
    {
        let mut out: Vec<Rc<Value>> = Vec::new();
        let mut i: usize = 0;
        proof {
            lemma_values_view(self.entries@);
        }
        while i < self.entries.len()
            invariant
                i <= self.entries.len(),
                out@.len() == i,
                forall|j: int| 0 <= j < i ==> #[trigger] out@[j] == self.entries@[j],
            decreases self.entries.len() - i,
        {
            let v = rc_dup(&self.entries[i]);
            out.push(v);
            i = i + 1;
        }
        proof {
            assert(out@ =~= self.entries@);
        }
        Locals { entries: out }
    }
}

impl Globals {
    /// An empty global environment.
    pub fn new() -> (r: Globals)
        ensures
            r@.entries == Seq::<(Seq<char>, (SpecTerm, Option<SpecTerm>))>::empty(),
    {
        Globals { entries: Vec::new() }
    }

    /// Bind a name to a type and an optional definition. Lookup returns the
    /// earliest binding of a name, so re-binding a bound name has no effect.
    pub fn define(&mut self, name: String, ty: Rc<Term>, def: Option<Rc<Term>>)
        ensures
            final(self)@.entries == old(self)@.entries.push(
                (
                    name@,
                    (
                        term_view(*ty),
                        match def {
                            Option::Some(d) => Option::Some(term_view(*d)),
                            Option::None => Option::None,
                        },
                    ),
                ),
            ),
    {
        proof {
            lemma_gentries_view(self.entries@);
        }
        self.entries.push((name, (ty, def)));
        proof {
            lemma_gentries_view(self.entries@);
            assert(self.entries@.drop_last() =~= old(self).entries@);
        }
    }

    /// Look a name up: the earliest entry with that name.
    pub fn get(&self, name: &String) -> (r: Option<&(Rc<Term>, Option<Rc<Term>>)>)
        ensures
            match r {
                Option::Some(e) => spec_globals_get(self@, name@) == Option::Some(
                    (
                        term_view(*e.0),
                        match e.1 {
                            Option::Some(d) => Option::Some(term_view(*d)),
                            Option::None => Option::None,
                        },
                    ),
                ),
                Option::None => spec_globals_get(self@, name@) is None,
            },
    {
        proof {
            assert(gentries_view(self.entries@).skip(0) =~= gentries_view(self.entries@));
        }
        self.get_from(name, 0)
    }

    /// Look a name up among the entries from position `i` on.
    fn get_from(&self, name: &String, i: usize) -> (r: Option<&(Rc<Term>, Option<Rc<Term>>)>)
        requires
            i <= self.entries@.len(),
        ensures
            match r {
                Option::Some(e) => spec_globals_get(
                    SpecGlobals { entries: gentries_view(self.entries@).skip(i as int) },
                    name@,
                ) == Option::Some(
                    (
                        term_view(*e.0),
                        match e.1 {
                            Option::Some(d) => Option::Some(term_view(*d)),
                            Option::None => Option::None,
                        },
                    ),
                ),
                Option::None => spec_globals_get(
                    SpecGlobals { entries: gentries_view(self.entries@).skip(i as int) },
                    name@,
                ) is None,
            },
        decreases self.entries@.len() - i,
    {
        proof {
            lemma_gentries_view(self.entries@);
        }
        if i == self.entries.len() {
            proof {
                assert(gentries_view(self.entries@).skip(i as int) =~= Seq::empty());
            }
            Option::None
        } else {
            proof {
                assert(gentries_view(self.entries@).skip(i as int)[0] == gentries_view(
                    self.entries@,
                )[i as int]);
            }
            if self.entries[i].0.eq(name) {
                Option::Some(&self.entries[i].1)
            } else {
                let r = self.get_from(name, i + 1);
                proof {
                    assert(gentries_view(self.entries@).skip(i as int).skip(1) =~= gentries_view(
                        self.entries@,
                    ).skip(i + 1 as int));
                }
                r
            }
        }
    }
}

impl Value {
    /// The type of types at the given level.
    pub fn type_type(level: usize) -> (r: Value)
        ensures
            r@ == SpecValue::TypeType(level as nat),
    {
        Value::TypeType(level)
    }

    /// A stuck global variable with the given spine.
    pub fn global(name: String, offset: usize, elims: Vec<Elim>) -> (r: Value)
        ensures
            r@ == SpecValue::Stuck(SpecHead::Global(name@, offset as nat), elims_view(elims@)),
    {
        Value::Stuck(Head::Global(name, offset), elims)
    }

    /// A stuck local variable with the given spine.
    pub fn local(level: usize, elims: Vec<Elim>) -> (r: Value)
        ensures
            r@ == SpecValue::Stuck(SpecHead::Local(level as nat), elims_view(elims@)),
    {
        Value::Stuck(Head::Local(level), elims)
    }

    /// Match a stuck global, handing back its name, offset and spine.
    pub fn try_global(&self) -> (r: Option<(&String, usize, &Vec<Elim>)>)
        ensures
            match r {
                Option::Some(t) => self@ == SpecValue::Stuck(
                    SpecHead::Global(t.0@, t.1 as nat),
                    elims_view(t.2@),
                ),
                Option::None => forall|n: Seq<char>, o: nat, sp: Seq<SpecElim>|
                    self@ != SpecValue::Stuck(SpecHead::Global(n, o), sp),
            },
    {
        match self {
            Value::Stuck(Head::Global(name, offset), elims) => Option::Some(
                (name, *offset, elims),
            ),
            _ => Option::None,
        }
    }
}

} // verus!
