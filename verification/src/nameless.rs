//! A locally nameless term and value syntax, with capture-avoiding binding.
//!
//! A name-based companion to the kernel's nameless syntax: terms here
//! carry free variables by name and bound variables by de Bruijn index, and
//! binders are built by *closing* a body over a name (replacing its free
//! occurrences by the binder's index) and taken apart by *opening* it with a
//! fresh name. `bind`/`unbind` keep the de Bruijn side hidden behind the
//! `unsafe_`-prefixed fields; substitution and free-variable collection work
//! on names only.
//!
//! Opening a binder needs a name that is not already free in the body —
//! callers supply it, and the contracts say exactly what is substituted.

use std::rc::Rc;
use vstd::prelude::*;

use crate::term::rc_dup;

verus! {

/// A variable name.
#[derive(Debug, PartialEq, Eq)]
pub struct Name(pub String);

impl View for Name {
    type V = Seq<char>;

    open spec fn view(&self) -> Seq<char> {
        self.0@
    }
}

impl Name {
    /// A copy of the name.
    pub fn duplicate(&self) -> (r: Name)
        ensures
            r@ == self@,
    {
        Name(self.0.clone())
    }

    /// Name equality, by content.
    pub fn same(&self, other: &Name) -> (r: bool)
        ensures
            r == (self@ == other@),
    {
        self.0.eq(&other.0)
    }
}

/// A value paired with the name that introduced it.
#[derive(Debug, PartialEq, Eq)]
pub struct Named<T> {
    pub name: Name,
    pub inner: T,
}

/// A variable: free by name, or bound by de Bruijn index together with the
/// display name it was closed over.
#[derive(Debug, PartialEq, Eq)]
pub enum Var {
    Free(Name),
    Bound(Named<usize>),
}

/// Terms of the locally nameless syntax.
#[derive(Debug, PartialEq, Eq)]
pub enum Term {
    /// A term annotated with a type.
    Ann(RcTerm, RcTerm),
    /// The universe at the given level.
    Universe(usize),
    /// A variable.
    Var(Var),
    /// A lambda abstraction.
    Lam(TermLam),
    /// A dependent function type.
    Pi(TermPi),
    /// An application.
    App(RcTerm, RcTerm),
}

/// A lambda binder: an optionally annotated parameter and a body that is
/// closed over the parameter's name.
#[derive(Debug, PartialEq, Eq)]
pub struct TermLam {
    pub unsafe_param: Named<Option<RcTerm>>,
    pub unsafe_body: RcTerm,
}

/// A pi binder: an annotated parameter and a body closed over its name.
#[derive(Debug, PartialEq, Eq)]
pub struct TermPi {
    pub unsafe_param: Named<RcTerm>,
    pub unsafe_body: RcTerm,
}

/// A shared term.
#[derive(Debug, PartialEq, Eq)]
pub struct RcTerm {
    pub inner: Rc<Term>,
}

/// Values of the locally nameless syntax.
#[derive(Debug, PartialEq, Eq)]
pub enum Value {
    /// The universe at the given level.
    Universe(usize),
    /// A variable.
    Var(Var),
    /// A lambda abstraction.
    Lam(ValueLam),
    /// A dependent function type.
    Pi(ValuePi),
    /// An application.
    App(RcValue, RcValue),
}

/// A lambda binder over values.
#[derive(Debug, PartialEq, Eq)]
pub struct ValueLam {
    pub unsafe_param: Named<Option<RcValue>>,
    pub unsafe_body: RcValue,
}

/// A pi binder over values.
#[derive(Debug, PartialEq, Eq)]
pub struct ValuePi {
    pub unsafe_param: Named<RcValue>,
    pub unsafe_body: RcValue,
}

/// A shared value.
#[derive(Debug, PartialEq, Eq)]
pub struct RcValue {
    pub inner: Rc<Value>,
}

// --- Ghost mirrors --------------------------------------------------------

/// Mirror of [`Var`].
pub ghost enum SpecVar {
    Free(Seq<char>),
    Bound(Seq<char>, nat),
}

/// Mirror of [`Term`].
pub ghost enum SpecNlTerm {
    Ann(Box<SpecNlTerm>, Box<SpecNlTerm>),
    Universe(nat),
    Var(SpecVar),
    Lam(Seq<char>, Option<Box<SpecNlTerm>>, Box<SpecNlTerm>),
    Pi(Seq<char>, Box<SpecNlTerm>, Box<SpecNlTerm>),
    App(Box<SpecNlTerm>, Box<SpecNlTerm>),
}

/// Mirror of [`Value`].
pub ghost enum SpecNlValue {
    Universe(nat),
    Var(SpecVar),
    Lam(Seq<char>, Option<Box<SpecNlValue>>, Box<SpecNlValue>),
    Pi(Seq<char>, Box<SpecNlValue>, Box<SpecNlValue>),
    App(Box<SpecNlValue>, Box<SpecNlValue>),
}

/// Mirror of a [`Var`].
pub open spec fn var_view(v: Var) -> SpecVar {
    match v {
        Var::Free(n) => SpecVar::Free(n@),
        Var::Bound(b) => SpecVar::Bound(b.name@, b.inner as nat),
    }
}

/// Mirror of a [`Term`].
pub open spec fn nl_term_view(t: Term) -> SpecNlTerm
    decreases t,
{
    match t {
        Term::Ann(e, ty) => SpecNlTerm::Ann(
            Box::new(nl_term_view(*e.inner)),
            Box::new(nl_term_view(*ty.inner)),
        ),
        Term::Universe(l) => SpecNlTerm::Universe(l as nat),
        Term::Var(v) => SpecNlTerm::Var(var_view(v)),
        Term::Lam(lam) => SpecNlTerm::Lam(
            lam.unsafe_param.name@,
            match lam.unsafe_param.inner {
                Option::Some(ty) => Option::Some(Box::new(nl_term_view(*ty.inner))),
                Option::None => Option::None,
            },
            Box::new(nl_term_view(*lam.unsafe_body.inner)),
        ),
        Term::Pi(pi) => SpecNlTerm::Pi(
            pi.unsafe_param.name@,
            Box::new(nl_term_view(*pi.unsafe_param.inner.inner)),
            Box::new(nl_term_view(*pi.unsafe_body.inner)),
        ),
        Term::App(f, a) => SpecNlTerm::App(
            Box::new(nl_term_view(*f.inner)),
            Box::new(nl_term_view(*a.inner)),
        ),
    }
}

/// Mirror of a [`Value`].
pub open spec fn nl_value_view(v: Value) -> SpecNlValue
    decreases v,
{
    match v {
        Value::Universe(l) => SpecNlValue::Universe(l as nat),
        Value::Var(x) => SpecNlValue::Var(var_view(x)),
        Value::Lam(lam) => SpecNlValue::Lam(
            lam.unsafe_param.name@,
            match lam.unsafe_param.inner {
                Option::Some(ty) => Option::Some(Box::new(nl_value_view(*ty.inner))),
                Option::None => Option::None,
            },
            Box::new(nl_value_view(*lam.unsafe_body.inner)),
        ),
        Value::Pi(pi) => SpecNlValue::Pi(
            pi.unsafe_param.name@,
            Box::new(nl_value_view(*pi.unsafe_param.inner.inner)),
            Box::new(nl_value_view(*pi.unsafe_body.inner)),
        ),
        Value::App(f, a) => SpecNlValue::App(
            Box::new(nl_value_view(*f.inner)),
            Box::new(nl_value_view(*a.inner)),
        ),
    }
}

impl View for RcTerm {
    type V = SpecNlTerm;

    open spec fn view(&self) -> SpecNlTerm {
        nl_term_view(*self.inner)
    }
}

impl View for RcValue {
    type V = SpecNlValue;

    open spec fn view(&self) -> SpecNlValue {
        nl_value_view(*self.inner)
    }
}

// --- The model of closing, opening and substitution -----------------------

/// The largest representable binding depth.
pub open spec fn depth_bound() -> nat {
    usize::MAX as nat
}

/// Close a term over a name: free occurrences of `name` become bound at
/// `level`, which grows by one under each binder. Binders deeper than the
/// largest representable depth are left untouched; nothing can be bound
/// there.
pub open spec fn spec_close_at(t: SpecNlTerm, level: nat, name: Seq<char>) -> SpecNlTerm
    decreases t,
{
    match t {
        SpecNlTerm::Ann(e, ty) => SpecNlTerm::Ann(
            Box::new(spec_close_at(*e, level, name)),
            Box::new(spec_close_at(*ty, level, name)),
        ),
        SpecNlTerm::Universe(l) => SpecNlTerm::Universe(l),
        SpecNlTerm::Var(SpecVar::Free(n)) => if n == name {
            SpecNlTerm::Var(SpecVar::Bound(n, level))
        } else {
            SpecNlTerm::Var(SpecVar::Free(n))
        },
        SpecNlTerm::Var(v) => SpecNlTerm::Var(v),
        SpecNlTerm::Lam(pn, pty, body) => SpecNlTerm::Lam(
            pn,
            match pty {
                Option::Some(ty) => Option::Some(Box::new(spec_close_at(*ty, level, name))),
                Option::None => Option::None,
            },
            if level < depth_bound() {
                Box::new(spec_close_at(*body, level + 1, name))
            } else {
                body
            },
        ),
        SpecNlTerm::Pi(pn, pty, body) => SpecNlTerm::Pi(
            pn,
            Box::new(spec_close_at(*pty, level, name)),
            if level < depth_bound() {
                Box::new(spec_close_at(*body, level + 1, name))
            } else {
                body
            },
        ),
        SpecNlTerm::App(f, a) => SpecNlTerm::App(
            Box::new(spec_close_at(*f, level, name)),
            Box::new(spec_close_at(*a, level, name)),
        ),
    }
}

/// Open a term with a name: variables bound at `level` become free
/// occurrences of `name`.
pub open spec fn spec_open_at(t: SpecNlTerm, level: nat, name: Seq<char>) -> SpecNlTerm
    decreases t,
{
    match t {
        SpecNlTerm::Ann(e, ty) => SpecNlTerm::Ann(
            Box::new(spec_open_at(*e, level, name)),
            Box::new(spec_open_at(*ty, level, name)),
        ),
        SpecNlTerm::Universe(l) => SpecNlTerm::Universe(l),
        SpecNlTerm::Var(SpecVar::Bound(hint, l)) => if l == level {
            SpecNlTerm::Var(SpecVar::Free(name))
        } else {
            SpecNlTerm::Var(SpecVar::Bound(hint, l))
        },
        SpecNlTerm::Var(v) => SpecNlTerm::Var(v),
        SpecNlTerm::Lam(pn, pty, body) => SpecNlTerm::Lam(
            pn,
            match pty {
                Option::Some(ty) => Option::Some(Box::new(spec_open_at(*ty, level, name))),
                Option::None => Option::None,
            },
            if level < depth_bound() {
                Box::new(spec_open_at(*body, level + 1, name))
            } else {
                body
            },
        ),
        SpecNlTerm::Pi(pn, pty, body) => SpecNlTerm::Pi(
            pn,
            Box::new(spec_open_at(*pty, level, name)),
            if level < depth_bound() {
                Box::new(spec_open_at(*body, level + 1, name))
            } else {
                body
            },
        ),
        SpecNlTerm::App(f, a) => SpecNlTerm::App(
            Box::new(spec_open_at(*f, level, name)),
            Box::new(spec_open_at(*a, level, name)),
        ),
    }
}

/// Substitute a term for every free occurrence of a name.
pub open spec fn spec_subst(t: SpecNlTerm, name: Seq<char>, x: SpecNlTerm) -> SpecNlTerm
    decreases t,
{
    match t {
        SpecNlTerm::Ann(e, ty) => SpecNlTerm::Ann(
            Box::new(spec_subst(*e, name, x)),
            Box::new(spec_subst(*ty, name, x)),
        ),
        SpecNlTerm::Universe(l) => SpecNlTerm::Universe(l),
        SpecNlTerm::Var(SpecVar::Free(n)) => if n == name {
            x
        } else {
            SpecNlTerm::Var(SpecVar::Free(n))
        },
        SpecNlTerm::Var(v) => SpecNlTerm::Var(v),
        SpecNlTerm::Lam(pn, pty, body) => SpecNlTerm::Lam(
            pn,
            match pty {
                Option::Some(ty) => Option::Some(Box::new(spec_subst(*ty, name, x))),
                Option::None => Option::None,
            },
            Box::new(spec_subst(*body, name, x)),
        ),
        SpecNlTerm::Pi(pn, pty, body) => SpecNlTerm::Pi(
            pn,
            Box::new(spec_subst(*pty, name, x)),
            Box::new(spec_subst(*body, name, x)),
        ),
        SpecNlTerm::App(f, a) => SpecNlTerm::App(
            Box::new(spec_subst(*f, name, x)),
            Box::new(spec_subst(*a, name, x)),
        ),
    }
}

/// Close a value over a name.
pub open spec fn spec_close_at_value(v: SpecNlValue, level: nat, name: Seq<char>) -> SpecNlValue
    decreases v,
{
    match v {
        SpecNlValue::Universe(l) => SpecNlValue::Universe(l),
        SpecNlValue::Var(SpecVar::Free(n)) => if n == name {
            SpecNlValue::Var(SpecVar::Bound(n, level))
        } else {
            SpecNlValue::Var(SpecVar::Free(n))
        },
        SpecNlValue::Var(x) => SpecNlValue::Var(x),
        SpecNlValue::Lam(pn, pty, body) => SpecNlValue::Lam(
            pn,
            match pty {
                Option::Some(ty) => Option::Some(Box::new(spec_close_at_value(*ty, level, name))),
                Option::None => Option::None,
            },
            if level < depth_bound() {
                Box::new(spec_close_at_value(*body, level + 1, name))
            } else {
                body
            },
        ),
        SpecNlValue::Pi(pn, pty, body) => SpecNlValue::Pi(
            pn,
            Box::new(spec_close_at_value(*pty, level, name)),
            if level < depth_bound() {
                Box::new(spec_close_at_value(*body, level + 1, name))
            } else {
                body
            },
        ),
        SpecNlValue::App(f, a) => SpecNlValue::App(
            Box::new(spec_close_at_value(*f, level, name)),
            Box::new(spec_close_at_value(*a, level, name)),
        ),
    }
}

/// Open a value with a name.
pub open spec fn spec_open_at_value(v: SpecNlValue, level: nat, name: Seq<char>) -> SpecNlValue
    decreases v,
{
    match v {
        SpecNlValue::Universe(l) => SpecNlValue::Universe(l),
        SpecNlValue::Var(SpecVar::Bound(hint, l)) => if l == level {
            SpecNlValue::Var(SpecVar::Free(name))
        } else {
            SpecNlValue::Var(SpecVar::Bound(hint, l))
        },
        SpecNlValue::Var(x) => SpecNlValue::Var(x),
        SpecNlValue::Lam(pn, pty, body) => SpecNlValue::Lam(
            pn,
            match pty {
                Option::Some(ty) => Option::Some(Box::new(spec_open_at_value(*ty, level, name))),
                Option::None => Option::None,
            },
            if level < depth_bound() {
                Box::new(spec_open_at_value(*body, level + 1, name))
            } else {
                body
            },
        ),
        SpecNlValue::Pi(pn, pty, body) => SpecNlValue::Pi(
            pn,
            Box::new(spec_open_at_value(*pty, level, name)),
            if level < depth_bound() {
                Box::new(spec_open_at_value(*body, level + 1, name))
            } else {
                body
            },
        ),
        SpecNlValue::App(f, a) => SpecNlValue::App(
            Box::new(spec_open_at_value(*f, level, name)),
            Box::new(spec_open_at_value(*a, level, name)),
        ),
    }
}

/// Substitute a value for every free occurrence of a name.
pub open spec fn spec_subst_value(v: SpecNlValue, name: Seq<char>, x: SpecNlValue) -> SpecNlValue
    decreases v,
{
    match v {
        SpecNlValue::Universe(l) => SpecNlValue::Universe(l),
        SpecNlValue::Var(SpecVar::Free(n)) => if n == name {
            x
        } else {
            SpecNlValue::Var(SpecVar::Free(n))
        },
        SpecNlValue::Var(y) => SpecNlValue::Var(y),
        SpecNlValue::Lam(pn, pty, body) => SpecNlValue::Lam(
            pn,
            match pty {
                Option::Some(ty) => Option::Some(Box::new(spec_subst_value(*ty, name, x))),
                Option::None => Option::None,
            },
            Box::new(spec_subst_value(*body, name, x)),
        ),
        SpecNlValue::Pi(pn, pty, body) => SpecNlValue::Pi(
            pn,
            Box::new(spec_subst_value(*pty, name, x)),
            Box::new(spec_subst_value(*body, name, x)),
        ),
        SpecNlValue::App(f, a) => SpecNlValue::App(
            Box::new(spec_subst_value(*f, name, x)),
            Box::new(spec_subst_value(*a, name, x)),
        ),
    }
}

// --- Executable operations -------------------------------------------------

/// Share a term handle.
pub fn dup_rcterm(t: &RcTerm) -> (r: RcTerm)
    ensures
        r@ == t@,
{
    RcTerm { inner: rc_dup(&t.inner) }
}

/// Share a value handle.
pub fn dup_rcvalue(v: &RcValue) -> (r: RcValue)
    ensures
        r@ == v@,
{
    RcValue { inner: rc_dup(&v.inner) }
}

/// Close a term over a name, from the given level.
fn close_term(t: &Term, level: usize, name: &Name) -> (r: Term)
    ensures
        nl_term_view(r) == spec_close_at(nl_term_view(*t), level as nat, name@),
    decreases *t,
{
    match t {
        Term::Ann(e, ty) => Term::Ann(
            RcTerm { inner: Rc::new(close_term(&e.inner, level, name)) },
            RcTerm { inner: Rc::new(close_term(&ty.inner, level, name)) },
        ),
        Term::Universe(l) => Term::Universe(*l),
        Term::Var(Var::Free(n)) => if n.same(name) {
            Term::Var(Var::Bound(Named { name: n.duplicate(), inner: level }))
        } else {
            Term::Var(Var::Free(n.duplicate()))
        },
        Term::Var(Var::Bound(b)) => Term::Var(
            Var::Bound(Named { name: b.name.duplicate(), inner: b.inner }),
        ),
        Term::Lam(lam) => Term::Lam(
            TermLam {
                unsafe_param: Named {
                    name: lam.unsafe_param.name.duplicate(),
                    inner: match &lam.unsafe_param.inner {
                        Option::Some(ty) => Option::Some(
                            RcTerm { inner: Rc::new(close_term(&ty.inner, level, name)) },
                        ),
                        Option::None => Option::None,
                    },
                },
                unsafe_body: if level < usize::MAX {
                    RcTerm { inner: Rc::new(close_term(&lam.unsafe_body.inner, level + 1, name)) }
                } else {
                    dup_rcterm(&lam.unsafe_body)
                },
            },
        ),
        Term::Pi(pi) => Term::Pi(
            TermPi {
                unsafe_param: Named {
                    name: pi.unsafe_param.name.duplicate(),
                    inner: RcTerm {
                        inner: Rc::new(close_term(&pi.unsafe_param.inner.inner, level, name)),
                    },
                },
                unsafe_body: if level < usize::MAX {
                    RcTerm { inner: Rc::new(close_term(&pi.unsafe_body.inner, level + 1, name)) }
                } else {
                    dup_rcterm(&pi.unsafe_body)
                },
            },
        ),
        Term::App(f, a) => Term::App(
            RcTerm { inner: Rc::new(close_term(&f.inner, level, name)) },
            RcTerm { inner: Rc::new(close_term(&a.inner, level, name)) },
        ),
    }
}

/// Open a term with a name, from the given level.
fn open_term(t: &Term, level: usize, name: &Name) -> (r: Term)
    ensures
        nl_term_view(r) == spec_open_at(nl_term_view(*t), level as nat, name@),
    decreases *t,
{
    match t {
        Term::Ann(e, ty) => Term::Ann(
            RcTerm { inner: Rc::new(open_term(&e.inner, level, name)) },
            RcTerm { inner: Rc::new(open_term(&ty.inner, level, name)) },
        ),
        Term::Universe(l) => Term::Universe(*l),
        Term::Var(Var::Bound(b)) => if b.inner == level {
            Term::Var(Var::Free(name.duplicate()))
        } else {
            Term::Var(Var::Bound(Named { name: b.name.duplicate(), inner: b.inner }))
        },
        Term::Var(Var::Free(n)) => Term::Var(Var::Free(n.duplicate())),
        Term::Lam(lam) => Term::Lam(
            TermLam {
                unsafe_param: Named {
                    name: lam.unsafe_param.name.duplicate(),
                    inner: match &lam.unsafe_param.inner {
                        Option::Some(ty) => Option::Some(
                            RcTerm { inner: Rc::new(open_term(&ty.inner, level, name)) },
                        ),
                        Option::None => Option::None,
                    },
                },
                unsafe_body: if level < usize::MAX {
                    RcTerm { inner: Rc::new(open_term(&lam.unsafe_body.inner, level + 1, name)) }
                } else {
                    dup_rcterm(&lam.unsafe_body)
                },
            },
        ),
        Term::Pi(pi) => Term::Pi(
            TermPi {
                unsafe_param: Named {
                    name: pi.unsafe_param.name.duplicate(),
                    inner: RcTerm {
                        inner: Rc::new(open_term(&pi.unsafe_param.inner.inner, level, name)),
                    },
                },
                unsafe_body: if level < usize::MAX {
                    RcTerm { inner: Rc::new(open_term(&pi.unsafe_body.inner, level + 1, name)) }
                } else {
                    dup_rcterm(&pi.unsafe_body)
                },
            },
        ),
        Term::App(f, a) => Term::App(
            RcTerm { inner: Rc::new(open_term(&f.inner, level, name)) },
            RcTerm { inner: Rc::new(open_term(&a.inner, level, name)) },
        ),
    }
}

/// Substitute a term for a free name in a term.
fn subst_term(t: &Term, name: &Name, x: &RcTerm) -> (r: Term)
    ensures
        nl_term_view(r) == spec_subst(nl_term_view(*t), name@, x@),
    decreases *t,
{
    match t {
        Term::Ann(e, ty) => Term::Ann(
            RcTerm { inner: Rc::new(subst_term(&e.inner, name, x)) },
            RcTerm { inner: Rc::new(subst_term(&ty.inner, name, x)) },
        ),
        Term::Universe(l) => Term::Universe(*l),
        Term::Var(Var::Free(n)) => if n.same(name) {
            let ghost goal = spec_subst(nl_term_view(*t), name@, x@);
            let r = match &*x.inner {
                Term::Ann(e, ty) => Term::Ann(dup_rcterm(e), dup_rcterm(ty)),
                Term::Universe(l) => Term::Universe(*l),
                Term::Var(Var::Free(m)) => Term::Var(Var::Free(m.duplicate())),
                Term::Var(Var::Bound(b)) => Term::Var(
                    Var::Bound(Named { name: b.name.duplicate(), inner: b.inner }),
                ),
                Term::Lam(lam) => Term::Lam(
                    TermLam {
                        unsafe_param: Named {
                            name: lam.unsafe_param.name.duplicate(),
                            inner: match &lam.unsafe_param.inner {
                                Option::Some(ty) => Option::Some(dup_rcterm(ty)),
                                Option::None => Option::None,
                            },
                        },
                        unsafe_body: dup_rcterm(&lam.unsafe_body),
                    },
                ),
                Term::Pi(pi) => Term::Pi(
                    TermPi {
                        unsafe_param: Named {
                            name: pi.unsafe_param.name.duplicate(),
                            inner: dup_rcterm(&pi.unsafe_param.inner),
                        },
                        unsafe_body: dup_rcterm(&pi.unsafe_body),
                    },
                ),
                Term::App(f, a) => Term::App(dup_rcterm(f), dup_rcterm(a)),
            };
            proof {
                assert(nl_term_view(r) == goal);
            }
            r
        } else {
            Term::Var(Var::Free(n.duplicate()))
        },
        Term::Var(Var::Bound(b)) => Term::Var(
            Var::Bound(Named { name: b.name.duplicate(), inner: b.inner }),
        ),
        Term::Lam(lam) => Term::Lam(
            TermLam {
                unsafe_param: Named {
                    name: lam.unsafe_param.name.duplicate(),
                    inner: match &lam.unsafe_param.inner {
                        Option::Some(ty) => Option::Some(
                            RcTerm { inner: Rc::new(subst_term(&ty.inner, name, x)) },
                        ),
                        Option::None => Option::None,
                    },
                },
                unsafe_body: RcTerm { inner: Rc::new(subst_term(&lam.unsafe_body.inner, name, x)) },
            },
        ),
        Term::Pi(pi) => Term::Pi(
            TermPi {
                unsafe_param: Named {
                    name: pi.unsafe_param.name.duplicate(),
                    inner: RcTerm {
                        inner: Rc::new(subst_term(&pi.unsafe_param.inner.inner, name, x)),
                    },
                },
                unsafe_body: RcTerm { inner: Rc::new(subst_term(&pi.unsafe_body.inner, name, x)) },
            },
        ),
        Term::App(f, a) => Term::App(
            RcTerm { inner: Rc::new(subst_term(&f.inner, name, x)) },
            RcTerm { inner: Rc::new(subst_term(&a.inner, name, x)) },
        ),
    }
}

/// Close a value over a name, from the given level.
fn close_value(v: &Value, level: usize, name: &Name) -> (r: Value)
    ensures
        nl_value_view(r) == spec_close_at_value(nl_value_view(*v), level as nat, name@),
    decreases *v,
{
    match v {
        Value::Universe(l) => Value::Universe(*l),
        Value::Var(Var::Free(n)) => if n.same(name) {
            Value::Var(Var::Bound(Named { name: n.duplicate(), inner: level }))
        } else {
            Value::Var(Var::Free(n.duplicate()))
        },
        Value::Var(Var::Bound(b)) => Value::Var(
            Var::Bound(Named { name: b.name.duplicate(), inner: b.inner }),
        ),
        Value::Lam(lam) => Value::Lam(
            ValueLam {
                unsafe_param: Named {
                    name: lam.unsafe_param.name.duplicate(),
                    inner: match &lam.unsafe_param.inner {
                        Option::Some(ty) => Option::Some(
                            RcValue { inner: Rc::new(close_value(&ty.inner, level, name)) },
                        ),
                        Option::None => Option::None,
                    },
                },
                unsafe_body: if level < usize::MAX {
                    RcValue { inner: Rc::new(close_value(&lam.unsafe_body.inner, level + 1, name)) }
                } else {
                    dup_rcvalue(&lam.unsafe_body)
                },
            },
        ),
        Value::Pi(pi) => Value::Pi(
            ValuePi {
                unsafe_param: Named {
                    name: pi.unsafe_param.name.duplicate(),
                    inner: RcValue {
                        inner: Rc::new(close_value(&pi.unsafe_param.inner.inner, level, name)),
                    },
                },
                unsafe_body: if level < usize::MAX {
                    RcValue { inner: Rc::new(close_value(&pi.unsafe_body.inner, level + 1, name)) }
                } else {
                    dup_rcvalue(&pi.unsafe_body)
                },
            },
        ),
        Value::App(f, a) => Value::App(
            RcValue { inner: Rc::new(close_value(&f.inner, level, name)) },
            RcValue { inner: Rc::new(close_value(&a.inner, level, name)) },
        ),
    }
}

/// Open a value with a name, from the given level.
fn open_value(v: &Value, level: usize, name: &Name) -> (r: Value)
    ensures
        nl_value_view(r) == spec_open_at_value(nl_value_view(*v), level as nat, name@),
    decreases *v,
{
    match v {
        Value::Universe(l) => Value::Universe(*l),
        Value::Var(Var::Bound(b)) => if b.inner == level {
            Value::Var(Var::Free(name.duplicate()))
        } else {
            Value::Var(Var::Bound(Named { name: b.name.duplicate(), inner: b.inner }))
        },
        Value::Var(Var::Free(n)) => Value::Var(Var::Free(n.duplicate())),
        Value::Lam(lam) => Value::Lam(
            ValueLam {
                unsafe_param: Named {
                    name: lam.unsafe_param.name.duplicate(),
                    inner: match &lam.unsafe_param.inner {
                        Option::Some(ty) => Option::Some(
                            RcValue { inner: Rc::new(open_value(&ty.inner, level, name)) },
                        ),
                        Option::None => Option::None,
                    },
                },
                unsafe_body: if level < usize::MAX {
                    RcValue { inner: Rc::new(open_value(&lam.unsafe_body.inner, level + 1, name)) }
                } else {
                    dup_rcvalue(&lam.unsafe_body)
                },
            },
        ),
        Value::Pi(pi) => Value::Pi(
            ValuePi {
                unsafe_param: Named {
                    name: pi.unsafe_param.name.duplicate(),
                    inner: RcValue {
                        inner: Rc::new(open_value(&pi.unsafe_param.inner.inner, level, name)),
                    },
                },
                unsafe_body: if level < usize::MAX {
                    RcValue { inner: Rc::new(open_value(&pi.unsafe_body.inner, level + 1, name)) }
                } else {
                    dup_rcvalue(&pi.unsafe_body)
                },
            },
        ),
        Value::App(f, a) => Value::App(
            RcValue { inner: Rc::new(open_value(&f.inner, level, name)) },
            RcValue { inner: Rc::new(open_value(&a.inner, level, name)) },
        ),
    }
}

/// Substitute a value for a free name in a value.
fn subst_value(v: &Value, name: &Name, x: &RcValue) -> (r: Value)
    ensures
        nl_value_view(r) == spec_subst_value(nl_value_view(*v), name@, x@),
    decreases *v,
{
    match v {
        Value::Universe(l) => Value::Universe(*l),
        Value::Var(Var::Free(n)) => if n.same(name) {
            let ghost goal = spec_subst_value(nl_value_view(*v), name@, x@);
            let r = match &*x.inner {
                Value::Universe(l) => Value::Universe(*l),
                Value::Var(Var::Free(m)) => Value::Var(Var::Free(m.duplicate())),
                Value::Var(Var::Bound(b)) => Value::Var(
                    Var::Bound(Named { name: b.name.duplicate(), inner: b.inner }),
                ),
                Value::Lam(lam) => Value::Lam(
                    ValueLam {
                        unsafe_param: Named {
                            name: lam.unsafe_param.name.duplicate(),
                            inner: match &lam.unsafe_param.inner {
                                Option::Some(ty) => Option::Some(dup_rcvalue(ty)),
                                Option::None => Option::None,
                            },
                        },
                        unsafe_body: dup_rcvalue(&lam.unsafe_body),
                    },
                ),
                Value::Pi(pi) => Value::Pi(
                    ValuePi {
                        unsafe_param: Named {
                            name: pi.unsafe_param.name.duplicate(),
                            inner: dup_rcvalue(&pi.unsafe_param.inner),
                        },
                        unsafe_body: dup_rcvalue(&pi.unsafe_body),
                    },
                ),
                Value::App(f, a) => Value::App(dup_rcvalue(f), dup_rcvalue(a)),
            };
            proof {
                assert(nl_value_view(r) == goal);
            }
            r
        } else {
            Value::Var(Var::Free(n.duplicate()))
        },
        Value::Var(Var::Bound(b)) => Value::Var(
            Var::Bound(Named { name: b.name.duplicate(), inner: b.inner }),
        ),
        Value::Lam(lam) => Value::Lam(
            ValueLam {
                unsafe_param: Named {
                    name: lam.unsafe_param.name.duplicate(),
                    inner: match &lam.unsafe_param.inner {
                        Option::Some(ty) => Option::Some(
                            RcValue { inner: Rc::new(subst_value(&ty.inner, name, x)) },
                        ),
                        Option::None => Option::None,
                    },
                },
                unsafe_body: RcValue {
                    inner: Rc::new(subst_value(&lam.unsafe_body.inner, name, x)),
                },
            },
        ),
        Value::Pi(pi) => Value::Pi(
            ValuePi {
                unsafe_param: Named {
                    name: pi.unsafe_param.name.duplicate(),
                    inner: RcValue {
                        inner: Rc::new(subst_value(&pi.unsafe_param.inner.inner, name, x)),
                    },
                },
                unsafe_body: RcValue {
                    inner: Rc::new(subst_value(&pi.unsafe_body.inner, name, x)),
                },
            },
        ),
        Value::App(f, a) => Value::App(
            RcValue { inner: Rc::new(subst_value(&f.inner, name, x)) },
            RcValue { inner: Rc::new(subst_value(&a.inner, name, x)) },
        ),
    }
}

impl RcTerm {
    /// Close this term over a name from the given level.
    pub fn close_at(&mut self, level: usize, name: &Name)
        ensures
            final(self)@ == spec_close_at(old(self)@, level as nat, name@),
    {
        let t = close_term(&self.inner, level, name);
        self.inner = Rc::new(t);
    }

    /// Close this term over a name, binding at the outermost level.
    pub fn close(&mut self, name: &Name)
        ensures
            final(self)@ == spec_close_at(old(self)@, 0, name@),
    {
        self.close_at(0, name);
    }

    /// Open this term with a name from the given level.
    pub fn open_at(&mut self, level: usize, name: &Name)
        ensures
            final(self)@ == spec_open_at(old(self)@, level as nat, name@),
    {
        let t = open_term(&self.inner, level, name);
        self.inner = Rc::new(t);
    }

    /// Open this term with a name at the outermost level.
    pub fn open(&mut self, name: &Name)
        ensures
            final(self)@ == spec_open_at(old(self)@, 0, name@),
    {
        self.open_at(0, name);
    }

    /// Substitute a term for every free occurrence of a name.
    pub fn subst(&mut self, name: &Name, x: &RcTerm)
        ensures
            final(self)@ == spec_subst(old(self)@, name@, x@),
    {
        let t = subst_term(&self.inner, name, x);
        self.inner = Rc::new(t);
    }
}

impl RcValue {
    /// Close this value over a name from the given level.
    pub fn close_at(&mut self, level: usize, name: &Name)
        ensures
            final(self)@ == spec_close_at_value(old(self)@, level as nat, name@),
    {
        let v = close_value(&self.inner, level, name);
        self.inner = Rc::new(v);
    }

    /// Close this value over a name, binding at the outermost level.
    pub fn close(&mut self, name: &Name)
        ensures
            final(self)@ == spec_close_at_value(old(self)@, 0, name@),
    {
        self.close_at(0, name);
    }

    /// Open this value with a name from the given level.
    pub fn open_at(&mut self, level: usize, name: &Name)
        ensures
            final(self)@ == spec_open_at_value(old(self)@, level as nat, name@),
    {
        let v = open_value(&self.inner, level, name);
        self.inner = Rc::new(v);
    }

    /// Open this value with a name at the outermost level.
    pub fn open(&mut self, name: &Name)
        ensures
            final(self)@ == spec_open_at_value(old(self)@, 0, name@),
    {
        self.open_at(0, name);
    }

    /// Substitute a value for every free occurrence of a name.
    pub fn subst(&mut self, name: &Name, x: &RcValue)
        ensures
            final(self)@ == spec_subst_value(old(self)@, name@, x@),
    {
        let v = subst_value(&self.inner, name, x);
        self.inner = Rc::new(v);
    }
}

impl TermLam {
    /// Build a lambda binder: the body is closed over the parameter's name.
    pub fn bind(param: Named<Option<RcTerm>>, body: RcTerm) -> (r: TermLam)
        ensures
            r.unsafe_param.name@ == param.name@,
            (match r.unsafe_param.inner {
                Option::Some(ty) => match param.inner {
                    Option::Some(pty) => ty@ == pty@,
                    Option::None => false,
                },
                Option::None => param.inner is None,
            }),
            r.unsafe_body@ == spec_close_at(body@, 0, param.name@),
    {
        let mut body = body;
        body.close(&param.name);
        TermLam { unsafe_param: param, unsafe_body: body }
    }

    /// Take a lambda binder apart, opening the body with the given fresh
    /// name; the caller must pick a name that is not free in the body.
    pub fn unbind(self, fresh: Name) -> (r: (Named<Option<RcTerm>>, RcTerm))
        ensures
            r.0.name@ == fresh@,
            (match r.0.inner {
                Option::Some(ty) => match self.unsafe_param.inner {
                    Option::Some(pty) => ty@ == pty@,
                    Option::None => false,
                },
                Option::None => self.unsafe_param.inner is None,
            }),
            r.1@ == spec_open_at(self.unsafe_body@, 0, fresh@),
    {
        let mut body = self.unsafe_body;
        body.open(&fresh);
        (Named { name: fresh, inner: self.unsafe_param.inner }, body)
    }
}

impl TermPi {
    /// Build a pi binder: the body is closed over the parameter's name.
    pub fn bind(param: Named<RcTerm>, body: RcTerm) -> (r: TermPi)
        ensures
            r.unsafe_param.name@ == param.name@,
            r.unsafe_param.inner@ == param.inner@,
            r.unsafe_body@ == spec_close_at(body@, 0, param.name@),
    {
        let mut body = body;
        body.close(&param.name);
        TermPi { unsafe_param: param, unsafe_body: body }
    }

    /// Take a pi binder apart, opening the body with the given fresh name.
    pub fn unbind(self, fresh: Name) -> (r: (Named<RcTerm>, RcTerm))
        ensures
            r.0.name@ == fresh@,
            r.0.inner@ == self.unsafe_param.inner@,
            r.1@ == spec_open_at(self.unsafe_body@, 0, fresh@),
    {
        let mut body = self.unsafe_body;
        body.open(&fresh);
        (Named { name: fresh, inner: self.unsafe_param.inner }, body)
    }
}

impl ValueLam {
    /// Build a lambda binder over values.
    pub fn bind(param: Named<Option<RcValue>>, body: RcValue) -> (r: ValueLam)
        ensures
            r.unsafe_param.name@ == param.name@,
            (match r.unsafe_param.inner {
                Option::Some(ty) => match param.inner {
                    Option::Some(pty) => ty@ == pty@,
                    Option::None => false,
                },
                Option::None => param.inner is None,
            }),
            r.unsafe_body@ == spec_close_at_value(body@, 0, param.name@),
    {
        let mut body = body;
        body.close(&param.name);
        ValueLam { unsafe_param: param, unsafe_body: body }
    }

    /// Take a lambda binder over values apart, opening with the given fresh
    /// name.
    pub fn unbind(self, fresh: Name) -> (r: (Named<Option<RcValue>>, RcValue))
        ensures
            r.0.name@ == fresh@,
            (match r.0.inner {
                Option::Some(ty) => match self.unsafe_param.inner {
                    Option::Some(pty) => ty@ == pty@,
                    Option::None => false,
                },
                Option::None => self.unsafe_param.inner is None,
            }),
            r.1@ == spec_open_at_value(self.unsafe_body@, 0, fresh@),
    {
        let mut body = self.unsafe_body;
        body.open(&fresh);
        (Named { name: fresh, inner: self.unsafe_param.inner }, body)
    }
}

impl ValuePi {
    /// Build a pi binder over values.
    pub fn bind(param: Named<RcValue>, body: RcValue) -> (r: ValuePi)
        ensures
            r.unsafe_param.name@ == param.name@,
            r.unsafe_param.inner@ == param.inner@,
            r.unsafe_body@ == spec_close_at_value(body@, 0, param.name@),
    {
        let mut body = body;
        body.close(&param.name);
        ValuePi { unsafe_param: param, unsafe_body: body }
    }

    /// Take a pi binder over values apart, opening with the given fresh
    /// name.
    pub fn unbind(self, fresh: Name) -> (r: (Named<RcValue>, RcValue))
        ensures
            r.0.name@ == fresh@,
            r.0.inner@ == self.unsafe_param.inner@,
            r.1@ == spec_open_at_value(self.unsafe_body@, 0, fresh@),
    {
        let mut body = self.unsafe_body;
        body.open(&fresh);
        (Named { name: fresh, inner: self.unsafe_param.inner }, body)
    }
}

/// Take a term lambda and a value pi apart together, opening both bodies
/// with one shared fresh name, so that the two parameters can be identified.
pub fn unbind2(lam: TermLam, pi: ValuePi, fresh: Name) -> (r: (
    Named<Option<RcTerm>>,
    RcTerm,
    Named<RcValue>,
    RcValue,
))
    ensures
        r.0.name@ == fresh@,
        (match r.0.inner {
            Option::Some(ty) => match lam.unsafe_param.inner {
                Option::Some(pty) => ty@ == pty@,
                Option::None => false,
            },
            Option::None => lam.unsafe_param.inner is None,
        }),
        r.1@ == spec_open_at(lam.unsafe_body@, 0, fresh@),
        r.2.name@ == fresh@,
        r.2.inner@ == pi.unsafe_param.inner@,
        r.3@ == spec_open_at_value(pi.unsafe_body@, 0, fresh@),
{
    let mut lam_body = lam.unsafe_body;
    let mut pi_body = pi.unsafe_body;
    lam_body.open(&fresh);
    pi_body.open(&fresh);
    (
        Named { name: fresh.duplicate(), inner: lam.unsafe_param.inner },
        lam_body,
        Named { name: fresh, inner: pi.unsafe_param.inner },
        pi_body,
    )
}

// --- Free variables --------------------------------------------------------

/// The set of names that occur free in a term.
pub open spec fn spec_free_names(t: SpecNlTerm) -> Set<Seq<char>>
    decreases t,
{
    match t {
        SpecNlTerm::Ann(e, ty) => spec_free_names(*e).union(spec_free_names(*ty)),
        SpecNlTerm::Universe(_l) => Set::empty(),
        SpecNlTerm::Var(SpecVar::Free(n)) => Set::empty().insert(n),
        SpecNlTerm::Var(_v) => Set::empty(),
        SpecNlTerm::Lam(_pn, pty, body) => (match pty {
            Option::Some(ty) => spec_free_names(*ty),
            Option::None => Set::empty(),
        }).union(spec_free_names(*body)),
        SpecNlTerm::Pi(_pn, pty, body) => spec_free_names(*pty).union(spec_free_names(*body)),
        SpecNlTerm::App(f, a) => spec_free_names(*f).union(spec_free_names(*a)),
    }
}

/// The set of name contents in a list of names.
pub open spec fn names_set(s: Seq<Name>) -> Set<Seq<char>>
    decreases s,
{
    if s.len() == 0 {
        Set::empty()
    } else {
        names_set(s.drop_last()).insert(s.last()@)
    }
}

/// Whether a list of names is free of duplicates, by content.
pub open spec fn names_nodup(s: Seq<Name>) -> bool {
    forall|i: int, j: int| 0 <= i < j < s.len() ==> s[i]@ != s[j]@
}

/// Membership in `names_set` is membership in the list.
pub proof fn lemma_names_set(s: Seq<Name>)
    ensures
        forall|n: Seq<char>|
            names_set(s).contains(n) <==> exists|i: int| 0 <= i < s.len() && s[i]@ == n,
    decreases s,
{
    if s.len() > 0 {
        lemma_names_set(s.drop_last());
        assert forall|n: Seq<char>|
            names_set(s).contains(n) <==> exists|i: int| 0 <= i < s.len() && s[i]@ == n by {
            assert(names_set(s) == names_set(s.drop_last()).insert(s.last()@));
            if names_set(s).contains(n) {
                if s.last()@ == n {
                    assert(0 <= s.len() - 1 < s.len() && s[s.len() - 1]@ == n);
                } else {
                    assert(names_set(s.drop_last()).contains(n));
                    let i = choose|i: int|
                        0 <= i < s.drop_last().len() && s.drop_last()[i]@ == n;
                    assert(s.drop_last()[i] == s[i]);
                    assert(0 <= i < s.len() && s[i]@ == n);
                }
            }
            if exists|i: int| 0 <= i < s.len() && s[i]@ == n {
                let i = choose|i: int| 0 <= i < s.len() && s[i]@ == n;
                if i < s.len() - 1 {
                    assert(s.drop_last()[i]@ == n);
                    assert(names_set(s.drop_last()).contains(n));
                } else {
                    assert(s.last()@ == n);
                }
            }
        }
    }
}

/// Whether a name with the given content stands in the list.
fn name_in(v: &Vec<Name>, n: &Name) -> (r: bool)
    ensures
        r == names_set(v@).contains(n@),
{
    proof {
        lemma_names_set(v@);
    }
    let mut i: usize = 0;
    while i < v.len()
        invariant
            i <= v@.len(),
            forall|j: int| 0 <= j < i ==> v@[j]@ != n@,
        decreases v@.len() - i,
    {
        if v[i].same(n) {
            proof {
                lemma_names_set(v@);
            }
            return true;
        }
        i = i + 1;
    }
    false
}

/// Collect the free names of a term into an accumulator, without
/// introducing duplicates.
fn collect_free(t: &Term, acc: &mut Vec<Name>)
    ensures
        names_set(final(acc)@) == names_set(old(acc)@).union(
            spec_free_names(nl_term_view(*t)),
        ),
        names_nodup(old(acc)@) ==> names_nodup(final(acc)@),
    decreases *t,
{
    match t {
        Term::Ann(e, ty) => {
            let ghost s0 = acc@;
            collect_free(&e.inner, acc);
            collect_free(&ty.inner, acc);
            proof {
                assert(names_set(acc@) =~= names_set(s0).union(
                    spec_free_names(nl_term_view(*t)),
                ));
            }
        },
        Term::Universe(_l) => {
            proof {
                assert(names_set(acc@) =~= names_set(acc@).union(
                    spec_free_names(nl_term_view(*t)),
                ));
            }
        },
        Term::Var(Var::Free(n)) => {
            proof {
                assert(spec_free_names(nl_term_view(*t)) =~= Set::empty().insert(n@));
            }
            if !name_in(acc, n) {
                let ghost s0 = acc@;
                acc.push(n.duplicate());
                proof {
                    lemma_names_set(s0);
                    assert(acc@.drop_last() =~= s0);
                    assert(names_set(acc@) == names_set(s0).insert(n@));
                    assert(names_set(acc@) =~= names_set(s0).union(
                        spec_free_names(nl_term_view(*t)),
                    ));
                    if names_nodup(s0) {
                        assert forall|i: int, j: int|
                            0 <= i < j < acc@.len() implies acc@[i]@ != acc@[j]@ by {
                            if j == acc@.len() - 1 {
                                assert(acc@[i] == s0[i]);
                                if acc@[i]@ == n@ {
                                    assert(names_set(s0).contains(n@));
                                }
                            } else {
                                assert(acc@[i] == s0[i] && acc@[j] == s0[j]);
                            }
                        }
                    }
                }
            } else {
                proof {
                    assert(names_set(acc@) =~= names_set(acc@).union(
                        spec_free_names(nl_term_view(*t)),
                    ));
                }
            }
        },
        Term::Var(Var::Bound(_b)) => {
            proof {
                assert(spec_free_names(nl_term_view(*t)) =~= Set::<Seq<char>>::empty());
                assert(names_set(acc@) =~= names_set(acc@).union(
                    spec_free_names(nl_term_view(*t)),
                ));
            }
        },
        Term::Lam(lam) => {
            let ghost s0 = acc@;
            match &lam.unsafe_param.inner {
                Option::Some(ty) => {
                    collect_free(&ty.inner, acc);
                },
                Option::None => {},
            }
            collect_free(&lam.unsafe_body.inner, acc);
            proof {
                assert(names_set(acc@) =~= names_set(s0).union(
                    spec_free_names(nl_term_view(*t)),
                ));
            }
        },
        Term::Pi(pi) => {
            let ghost s0 = acc@;
            collect_free(&pi.unsafe_param.inner.inner, acc);
            collect_free(&pi.unsafe_body.inner, acc);
            proof {
                assert(names_set(acc@) =~= names_set(s0).union(
                    spec_free_names(nl_term_view(*t)),
                ));
            }
        },
        Term::App(f, a) => {
            let ghost s0 = acc@;
            collect_free(&f.inner, acc);
            collect_free(&a.inner, acc);
            proof {
                assert(names_set(acc@) =~= names_set(s0).union(
                    spec_free_names(nl_term_view(*t)),
                ));
            }
        },
    }
}

impl RcTerm {
    /// The free names of this term, each exactly once.
    pub fn free_vars(&self) -> (r: Vec<Name>)
        ensures
            names_set(r@) == spec_free_names(self@),
            names_nodup(r@),
    {
        let mut acc: Vec<Name> = Vec::new();
        collect_free(&self.inner, &mut acc);
        proof {
            assert(names_set(acc@) =~= spec_free_names(self@));
        }
        acc
    }
}

} // verus!
