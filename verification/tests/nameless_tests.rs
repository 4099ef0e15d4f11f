use std::rc::Rc;

use pikelet::nameless::Name;
use pikelet::nameless::Named;
use pikelet::nameless::RcTerm;
use pikelet::nameless::RcValue;
use pikelet::nameless::Term;
use pikelet::nameless::TermLam;
use pikelet::nameless::TermPi;
use pikelet::nameless::Value;
use pikelet::nameless::ValueLam;
use pikelet::nameless::ValuePi;
use pikelet::nameless::Var;
use pikelet::nameless::unbind2;

fn name(s: &str) -> Name {
    Name(s.to_string())
}

fn free_term(s: &str) -> RcTerm {
    RcTerm { inner: Rc::new(Term::Var(Var::Free(name(s)))) }
}

fn bound_term(s: &str, i: usize) -> RcTerm {
    RcTerm { inner: Rc::new(Term::Var(Var::Bound(Named { name: name(s), inner: i }))) }
}

fn free_value(s: &str) -> RcValue {
    RcValue { inner: Rc::new(Value::Var(Var::Free(name(s)))) }
}

#[test]
fn term_lam_bind_closes_the_body() {
    let lam = TermLam::bind(Named { name: name("x"), inner: None }, free_term("x"));
    assert_eq!(lam.unsafe_body, bound_term("x", 0));

    // A different free name is left alone.
    let lam = TermLam::bind(Named { name: name("x"), inner: None }, free_term("y"));
    assert_eq!(lam.unsafe_body, free_term("y"));
}

#[test]
fn term_lam_unbind_opens_with_the_fresh_name() {
    let lam = TermLam::bind(Named { name: name("x"), inner: None }, free_term("x"));
    let (param, body) = lam.unbind(name("fresh-1"));
    assert_eq!(param.name, name("fresh-1"));
    assert_eq!(body, free_term("fresh-1"));
}

#[test]
fn term_pi_bind_and_unbind() {
    let universe = RcTerm { inner: Rc::new(Term::Universe(0)) };
    let pi = TermPi::bind(
        Named { name: name("a"), inner: universe },
        free_term("a"),
    );
    assert_eq!(pi.unsafe_body, bound_term("a", 0));
    let (param, body) = pi.unbind(name("b"));
    assert_eq!(param.name, name("b"));
    assert_eq!(body, free_term("b"));
}

#[test]
fn nested_binders_use_distinct_levels() {
    // λx. λy. x  — closing first over y (inner), then over x (outer).
    let body = free_term("x");
    let inner = TermLam::bind(Named { name: name("y"), inner: None }, body);
    let outer = TermLam::bind(
        Named { name: name("x"), inner: None },
        RcTerm { inner: Rc::new(Term::Lam(inner)) },
    );
    match &*outer.unsafe_body.inner {
        Term::Lam(inner) => {
            // Under one binder, the outer variable sits at level 1.
            assert_eq!(inner.unsafe_body, bound_term("x", 1));
        }
        other => panic!("expected a lambda, found {:?}", other),
    }
}

#[test]
fn value_lam_and_pi_bind() {
    let lam = ValueLam::bind(Named { name: name("x"), inner: None }, free_value("x"));
    let (param, body) = lam.unbind(name("z"));
    assert_eq!(param.name, name("z"));
    assert_eq!(body, free_value("z"));

    let universe = RcValue { inner: Rc::new(Value::Universe(1)) };
    let pi = ValuePi::bind(Named { name: name("a"), inner: universe }, free_value("a"));
    let (param, body) = pi.unbind(name("w"));
    assert_eq!(param.name, name("w"));
    assert_eq!(body, free_value("w"));
}

#[test]
fn unbind2_shares_one_fresh_name() {
    let lam = TermLam::bind(Named { name: name("x"), inner: None }, free_term("x"));
    let universe = RcValue { inner: Rc::new(Value::Universe(0)) };
    let pi = ValuePi::bind(Named { name: name("y"), inner: universe }, free_value("y"));
    let (lam_param, lam_body, pi_param, pi_body) = unbind2(lam, pi, name("shared"));
    assert_eq!(lam_param.name, name("shared"));
    assert_eq!(pi_param.name, name("shared"));
    assert_eq!(lam_body, free_term("shared"));
    assert_eq!(pi_body, free_value("shared"));
}

#[test]
fn subst_replaces_free_occurrences() {
    // (x y)[x := Universe 0] = (Universe 0) y
    let mut term = RcTerm {
        inner: Rc::new(Term::App(free_term("x"), free_term("y"))),
    };
    let replacement = RcTerm { inner: Rc::new(Term::Universe(0)) };
    term.subst(&name("x"), &replacement);
    assert_eq!(
        term,
        RcTerm {
            inner: Rc::new(Term::App(
                RcTerm { inner: Rc::new(Term::Universe(0)) },
                free_term("y"),
            )),
        },
    );
}

#[test]
fn subst_leaves_bound_variables_alone() {
    let mut term = bound_term("x", 0);
    let replacement = RcTerm { inner: Rc::new(Term::Universe(0)) };
    term.subst(&name("x"), &replacement);
    assert_eq!(term, bound_term("x", 0));
}

#[test]
fn value_subst_replaces_free_occurrences() {
    let mut value = RcValue {
        inner: Rc::new(Value::App(free_value("f"), free_value("a"))),
    };
    let replacement = RcValue { inner: Rc::new(Value::Universe(2)) };
    value.subst(&name("f"), &replacement);
    assert_eq!(
        value,
        RcValue {
            inner: Rc::new(Value::App(
                RcValue { inner: Rc::new(Value::Universe(2)) },
                free_value("a"),
            )),
        },
    );
}

#[test]
fn free_vars_collects_each_name_once() {
    // (x (λy. x z)) has free names x and z, each reported once.
    let lam = TermLam::bind(
        Named { name: name("y"), inner: None },
        RcTerm { inner: Rc::new(Term::App(free_term("x"), free_term("z"))) },
    );
    let term = RcTerm {
        inner: Rc::new(Term::App(
            free_term("x"),
            RcTerm { inner: Rc::new(Term::Lam(lam)) },
        )),
    };
    let free = term.free_vars();
    assert_eq!(free, vec![name("x"), name("z")]);
}

#[test]
fn free_vars_ignores_bound_names() {
    let lam = TermLam::bind(Named { name: name("x"), inner: None }, free_term("x"));
    let term = RcTerm { inner: Rc::new(Term::Lam(lam)) };
    assert_eq!(term.free_vars(), Vec::<Name>::new());
}
