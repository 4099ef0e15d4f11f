use std::rc::Rc;

use pikelet::Constant;
use pikelet::Globals;
use pikelet::Head;
use pikelet::LazyValue;
use pikelet::Locals;
use pikelet::Term;
use pikelet::Unfold;
use pikelet::Value;
use pikelet::eval_term;
use pikelet::is_equal;
use pikelet::is_subtype;
use pikelet::normalize_term;
use pikelet::read_back_value;
use pikelet::record_elim_type;

const FUEL: u64 = 10_000;

fn app(f: Term, a: Term) -> Term {
    Term::FunctionElim(Rc::new(f), Rc::new(a))
}

fn lam(name: &str, body: Term) -> Term {
    Term::FunctionTerm(name.to_string(), Rc::new(body))
}

fn pi(name: Option<&str>, input: Term, output: Term) -> Term {
    Term::FunctionType(name.map(|n| n.to_string()), Rc::new(input), Rc::new(output))
}

fn global(name: &str) -> Term {
    Term::Global(name.to_string())
}

fn s64(v: i64) -> Term {
    Term::Constant(Constant::S64(v))
}

fn eval0(globals: &Globals, term: &Term) -> Rc<Value> {
    let locals = Locals::new();
    eval_term(globals, 0, &locals, term, FUEL).expect("fuel should suffice")
}

fn globals_with_id() -> Globals {
    let mut globals = Globals::new();
    globals.define(
        "id".to_string(),
        Rc::new(pi(Some("x"), Term::TypeType(0), Term::TypeType(0))),
        Some(Rc::new(lam("x", Term::Local(0)))),
    );
    globals
}

#[test]
fn identity_application() {
    let globals = Globals::new();
    let term = app(lam("x", Term::Local(0)), s64(42));
    let value = eval0(&globals, &term);
    assert!(matches!(&*value, Value::Constant(Constant::S64(42))));

    let read_back = read_back_value(&globals, 0, Unfold::Always, &value, FUEL).unwrap();
    assert_eq!(*read_back, s64(42));
}

#[test]
fn dependent_projection() {
    let globals = Globals::new();
    // { len : U32, data : Array len U8 }
    let record_type = Term::RecordType(vec![
        ("len".to_string(), Rc::new(global("U32"))),
        (
            "data".to_string(),
            Rc::new(app(app(global("Array"), Term::Local(0)), global("U8"))),
        ),
    ]);
    // { len = 3; data = [1, 2, 3] }
    let record_term = Term::RecordTerm(vec![
        ("len".to_string(), Rc::new(Term::Constant(Constant::U32(3)))),
        (
            "data".to_string(),
            Rc::new(Term::Sequence(vec![
                Rc::new(Term::Constant(Constant::U8(1))),
                Rc::new(Term::Constant(Constant::U8(2))),
                Rc::new(Term::Constant(Constant::U8(3))),
            ])),
        ),
    ]);

    let type_value = eval0(&globals, &record_type);
    let head_value = eval0(&globals, &record_term);
    let closure = match &*type_value {
        Value::RecordType(closure) => closure,
        _ => panic!("expected a record type value"),
    };

    let data_type = record_elim_type(&globals, &head_value, &"data".to_string(), closure, FUEL)
        .expect("fuel should suffice")
        .expect("the data label should be present");
    let read_back = read_back_value(&globals, 0, Unfold::Always, &data_type, FUEL).unwrap();

    // `Array 3 U8`, not `Array len U8`.
    let expected = app(app(global("Array"), Term::Constant(Constant::U32(3))), global("U8"));
    assert_eq!(*read_back, expected);
}

#[test]
fn absent_label_in_record_elim_type() {
    let globals = Globals::new();
    let record_type = Term::RecordType(vec![("len".to_string(), Rc::new(global("U32")))]);
    let record_term =
        Term::RecordTerm(vec![("len".to_string(), Rc::new(Term::Constant(Constant::U32(3))))]);
    let type_value = eval0(&globals, &record_type);
    let head_value = eval0(&globals, &record_term);
    let closure = match &*type_value {
        Value::RecordType(closure) => closure,
        _ => panic!("expected a record type value"),
    };
    let missing = record_elim_type(&globals, &head_value, &"data".to_string(), closure, FUEL)
        .expect("fuel should suffice");
    assert!(missing.is_none());
}

#[test]
fn universe_lifting() {
    let globals = Globals::new();
    let lifted = eval0(&globals, &Term::Lift(Rc::new(Term::TypeType(0)), 2));
    assert!(matches!(&*lifted, Value::TypeType(2)));

    let low = eval0(&globals, &Term::TypeType(0));
    let high = eval0(&globals, &Term::Lift(Rc::new(Term::TypeType(0)), 1));
    assert_eq!(is_subtype(&globals, 0, &low, &high, FUEL), Some(true));
    assert_eq!(is_subtype(&globals, 0, &high, &low, FUEL), Some(false));
}

#[test]
fn lift_composition() {
    let globals = Globals::new();
    let nested = eval0(
        &globals,
        &Term::Lift(Rc::new(Term::Lift(Rc::new(Term::TypeType(0)), 1)), 2),
    );
    let flat = eval0(&globals, &Term::Lift(Rc::new(Term::TypeType(0)), 3));
    assert_eq!(is_equal(&globals, 0, &nested, &flat, FUEL), Some(true));
}

#[test]
fn universe_overflow_is_error() {
    let globals = Globals::new();
    let term = Term::Lift(Rc::new(Term::TypeType(usize::MAX)), 1);
    let value = eval0(&globals, &term);
    assert!(matches!(&*value, Value::Error));
}

#[test]
fn glued_short_circuit() {
    let globals = globals_with_id();
    let term = app(global("id"), s64(7));
    let v1 = eval0(&globals, &term);
    let v2 = eval0(&globals, &term);
    assert!(matches!(&*v1, Value::Unstuck(..)));
    assert_eq!(is_equal(&globals, 0, &v1, &v2, FUEL), Some(true));
}

#[test]
fn eta_for_functions() {
    let globals = globals_with_id();
    let f = eval0(&globals, &global("id"));
    let eta = eval0(&globals, &lam("x", app(global("id"), Term::Local(0))));
    assert_eq!(is_equal(&globals, 0, &f, &eta, FUEL), Some(true));
    assert_eq!(is_equal(&globals, 0, &eta, &f, FUEL), Some(true));
}

#[test]
fn escaped_level_falls_back_to_payload() {
    let globals = Globals::new();
    // An unstuck value whose stored local level 5 escapes a read-back at
    // environment size 0: the stuck shell cannot be quoted, so read-back
    // must force the payload instead.
    let payload = LazyValue::new(Rc::new(Value::Constant(Constant::U32(1))));
    let value = Value::Unstuck(Head::Local(5), Vec::new(), Rc::new(payload));
    let term = read_back_value(&globals, 0, Unfold::Never, &value, FUEL).unwrap();
    assert_eq!(*term, Term::Constant(Constant::U32(1)));

    // A plain stuck value with an escaped level quotes as the error
    // sentinel.
    let stuck = Value::Stuck(Head::Local(5), Vec::new());
    let term = read_back_value(&globals, 0, Unfold::Never, &stuck, FUEL).unwrap();
    assert_eq!(*term, Term::Error);
}

#[test]
fn read_back_soundness_instance() {
    let globals = globals_with_id();
    let term = app(global("id"), app(lam("x", Term::Local(0)), s64(42)));
    let locals = Locals::new();
    let normalized = normalize_term(&globals, 0, &locals, &term, FUEL).unwrap();
    let v1 = eval0(&globals, &term);
    let v2 = eval0(&globals, &normalized);
    assert_eq!(is_equal(&globals, 0, &v1, &v2, FUEL), Some(true));
}

#[test]
fn normalization_is_idempotent_instance() {
    let globals = globals_with_id();
    let locals = Locals::new();
    let term = app(global("id"), pi(Some("x"), Term::TypeType(0), app(global("id"), Term::Local(0))));
    let once = normalize_term(&globals, 0, &locals, &term, FUEL).unwrap();
    let twice = normalize_term(&globals, 0, &locals, &once, FUEL).unwrap();
    assert_eq!(*once, *twice);
}

#[test]
fn alpha_invariance_instance() {
    let globals = Globals::new();
    let v1 = eval0(&globals, &lam("x", Term::Local(0)));
    let v2 = eval0(&globals, &lam("y", Term::Local(0)));
    assert_eq!(is_equal(&globals, 0, &v1, &v2, FUEL), Some(true));

    let p1 = eval0(&globals, &pi(Some("a"), Term::TypeType(0), Term::Local(0)));
    let p2 = eval0(&globals, &pi(Some("b"), Term::TypeType(0), Term::Local(0)));
    assert_eq!(is_equal(&globals, 0, &p1, &p2, FUEL), Some(true));
}

#[test]
fn reflexivity_instances() {
    let globals = globals_with_id();
    let samples = vec![
        s64(5),
        lam("x", Term::Local(0)),
        Term::RecordTerm(vec![("a".to_string(), Rc::new(s64(1)))]),
        Term::Sequence(vec![Rc::new(s64(1)), Rc::new(s64(2))]),
        global("abstract-thing"),
        app(global("id"), s64(3)),
    ];
    for term in &samples {
        let v = eval0(&globals, term);
        assert_eq!(is_equal(&globals, 0, &v, &v, FUEL), Some(true));
    }

    let types = vec![
        Term::TypeType(3),
        pi(None, Term::TypeType(0), Term::TypeType(1)),
        Term::RecordType(vec![("a".to_string(), Rc::new(Term::TypeType(0)))]),
        global("abstract-type"),
        Term::Error,
    ];
    for term in &types {
        let v = eval0(&globals, term);
        assert_eq!(is_subtype(&globals, 0, &v, &v, FUEL), Some(true));
    }
}

#[test]
fn cumulativity_cases() {
    let globals = Globals::new();
    for (l0, l1, expected) in [(0, 0, true), (0, 1, true), (1, 0, false), (3, 7, true)] {
        let a = eval0(&globals, &Term::TypeType(l0));
        let b = eval0(&globals, &Term::TypeType(l1));
        assert_eq!(is_subtype(&globals, 0, &a, &b, FUEL), Some(expected));
    }
    let a = eval0(&globals, &Term::TypeType(2));
    let b = eval0(&globals, &Term::TypeType(2));
    assert_eq!(is_equal(&globals, 0, &a, &b, FUEL), Some(true));
    let c = eval0(&globals, &Term::TypeType(3));
    assert_eq!(is_equal(&globals, 0, &a, &c, FUEL), Some(false));
}

#[test]
fn function_type_variance() {
    let globals = Globals::new();
    // Π(_ : Type 1). Type 0  <=  Π(_ : Type 0). Type 1 : the input is
    // contravariant and the output covariant.
    let sub = eval0(&globals, &pi(None, Term::TypeType(1), Term::TypeType(0)));
    let sup = eval0(&globals, &pi(None, Term::TypeType(0), Term::TypeType(1)));
    assert_eq!(is_subtype(&globals, 0, &sub, &sup, FUEL), Some(true));
    assert_eq!(is_subtype(&globals, 0, &sup, &sub, FUEL), Some(false));
}

#[test]
fn glued_coherence_instance() {
    let globals = globals_with_id();
    let value = eval0(&globals, &global("id"));
    assert!(matches!(&*value, Value::Unstuck(..)));
    let direct = read_back_value(&globals, 0, Unfold::Always, &value, FUEL).unwrap();
    let forced = value.force(&globals, FUEL).unwrap();
    let unfolded = read_back_value(&globals, 0, Unfold::Always, &forced, FUEL).unwrap();
    assert_eq!(*direct, *unfolded);
}

#[test]
fn error_absorption_cases() {
    let globals = globals_with_id();
    let error = eval0(&globals, &Term::Error);
    let samples = vec![
        s64(5),
        Term::TypeType(0),
        lam("x", Term::Local(0)),
        app(global("id"), s64(3)),
    ];
    for term in &samples {
        let v = eval0(&globals, term);
        assert_eq!(is_equal(&globals, 0, &error, &v, FUEL), Some(true));
        assert_eq!(is_equal(&globals, 0, &v, &error, FUEL), Some(true));
        assert_eq!(is_subtype(&globals, 0, &error, &v, FUEL), Some(true));
        assert_eq!(is_subtype(&globals, 0, &v, &error, FUEL), Some(true));
    }
}

#[test]
fn stuck_global_offsets_are_ignored() {
    let globals = Globals::new();
    let plain = eval0(&globals, &global("f"));
    let lifted = eval0(&globals, &Term::Lift(Rc::new(global("f")), 1));
    assert_eq!(is_equal(&globals, 0, &plain, &lifted, FUEL), Some(true));
}

#[test]
fn annotation_is_erased() {
    let globals = Globals::new();
    let term = Term::Ann(Rc::new(s64(9)), Rc::new(global("S64")));
    let value = eval0(&globals, &term);
    assert!(matches!(&*value, Value::Constant(Constant::S64(9))));
}

#[test]
fn escaped_index_is_error() {
    let globals = Globals::new();
    let value = eval0(&globals, &Term::Local(3));
    assert!(matches!(&*value, Value::Error));
}

#[test]
fn missing_record_label_is_error() {
    let globals = Globals::new();
    let record =
        Term::RecordTerm(vec![("a".to_string(), Rc::new(s64(1)))]);
    let term = Term::RecordElim(Rc::new(record), "b".to_string());
    let value = eval0(&globals, &term);
    assert!(matches!(&*value, Value::Error));
}

#[test]
fn dependent_record_projection_evaluates_earlier_fields() {
    let globals = Globals::new();
    // { a = 4; b = a } . b  ==>  4
    let record = Term::RecordTerm(vec![
        ("a".to_string(), Rc::new(s64(4))),
        ("b".to_string(), Rc::new(Term::Local(0))),
    ]);
    let term = Term::RecordElim(Rc::new(record), "b".to_string());
    let value = eval0(&globals, &term);
    assert!(matches!(&*value, Value::Constant(Constant::S64(4))));
}

#[test]
fn sequences_compare_pointwise() {
    let globals = Globals::new();
    let a = eval0(&globals, &Term::Sequence(vec![Rc::new(s64(1)), Rc::new(s64(2))]));
    let b = eval0(&globals, &Term::Sequence(vec![Rc::new(s64(1)), Rc::new(s64(2))]));
    let c = eval0(&globals, &Term::Sequence(vec![Rc::new(s64(1)), Rc::new(s64(3))]));
    let short = eval0(&globals, &Term::Sequence(vec![Rc::new(s64(1))]));
    assert_eq!(is_equal(&globals, 0, &a, &b, FUEL), Some(true));
    assert_eq!(is_equal(&globals, 0, &a, &c, FUEL), Some(false));
    assert_eq!(is_equal(&globals, 0, &a, &short, FUEL), Some(false));
}

#[test]
fn constants_compare_bitwise() {
    let globals = Globals::new();
    let nan_bits = 0x7fc0_0000u32;
    let a = eval0(&globals, &Term::Constant(Constant::F32(nan_bits)));
    let b = eval0(&globals, &Term::Constant(Constant::F32(nan_bits)));
    let c = eval0(&globals, &Term::Constant(Constant::F32(1)));
    assert_eq!(is_equal(&globals, 0, &a, &b, FUEL), Some(true));
    assert_eq!(is_equal(&globals, 0, &a, &c, FUEL), Some(false));
    let s = eval0(&globals, &Term::Constant(Constant::String("hi".to_string())));
    let t = eval0(&globals, &Term::Constant(Constant::String("hi".to_string())));
    assert_eq!(is_equal(&globals, 0, &s, &t, FUEL), Some(true));
}

#[test]
fn fuel_exhaustion_is_reported() {
    let globals = Globals::new();
    // (λx. x x) (λx. x x) loops forever; the evaluator must give up and
    // report the exhausted fuel instead.
    let omega = app(
        lam("x", app(Term::Local(0), Term::Local(0))),
        lam("x", app(Term::Local(0), Term::Local(0))),
    );
    let locals = Locals::new();
    assert!(eval_term(&globals, 0, &locals, &omega, 50).is_none());
}

#[test]
fn try_global_and_constructors() {
    let v = Value::global("g".to_string(), 2, Vec::new());
    let (name, offset, spine) = v.try_global().expect("a stuck global");
    assert_eq!(name, "g");
    assert_eq!(offset, 2);
    assert!(spine.is_empty());
    assert!(Value::type_type(3).try_global().is_none());
    assert!(matches!(Value::local(1, Vec::new()), Value::Stuck(Head::Local(1), _)));
}

#[test]
fn locals_push_pop_get() {
    let mut locals = Locals::new();
    assert_eq!(locals.size(), 0);
    locals.push(Rc::new(Value::Constant(Constant::U8(1))));
    locals.push(Rc::new(Value::Constant(Constant::U8(2))));
    assert_eq!(locals.size(), 2);
    // Index 0 is the innermost entry.
    assert!(matches!(
        &**locals.get(0).unwrap(),
        Value::Constant(Constant::U8(2))
    ));
    assert!(matches!(
        &**locals.get(1).unwrap(),
        Value::Constant(Constant::U8(1))
    ));
    assert!(locals.get(2).is_none());
    let popped = locals.pop().unwrap();
    assert!(matches!(&*popped, Value::Constant(Constant::U8(2))));
    assert_eq!(locals.size(), 1);
}

#[test]
fn globals_first_binding_wins() {
    let mut globals = Globals::new();
    globals.define("x".to_string(), Rc::new(Term::TypeType(0)), None);
    globals.define("x".to_string(), Rc::new(Term::TypeType(1)), None);
    let entry = globals.get(&"x".to_string()).unwrap();
    assert_eq!(*entry.0, Term::TypeType(0));
    assert!(globals.get(&"y".to_string()).is_none());
}

#[test]
fn lazy_values_force_to_their_computation() {
    let globals = globals_with_id();
    let locals = Locals::new();
    let lazy = LazyValue::eval_term(0, locals, Rc::new(app(global("id"), s64(8))));
    let forced = lazy.force(&globals, FUEL).unwrap();
    let fully = forced.force(&globals, FUEL).unwrap();
    assert!(matches!(&*fully, Value::Constant(Constant::S64(8))));
}

#[test]
fn read_back_without_unfolding_keeps_globals_compact() {
    let globals = globals_with_id();
    let value = eval0(&globals, &global("id"));
    let compact = read_back_value(&globals, 0, Unfold::Never, &value, FUEL).unwrap();
    assert_eq!(*compact, global("id"));
    let full = read_back_value(&globals, 0, Unfold::Always, &value, FUEL).unwrap();
    assert_eq!(*full, lam("x", Term::Local(0)));
}

#[test]
fn record_types_are_width_invariant_and_covariant() {
    let globals = Globals::new();
    let narrow = eval0(
        &globals,
        &Term::RecordType(vec![("a".to_string(), Rc::new(Term::TypeType(0)))]),
    );
    let wide = eval0(
        &globals,
        &Term::RecordType(vec![
            ("a".to_string(), Rc::new(Term::TypeType(0))),
            ("b".to_string(), Rc::new(Term::TypeType(0))),
        ]),
    );
    let lifted = eval0(
        &globals,
        &Term::RecordType(vec![("a".to_string(), Rc::new(Term::TypeType(1)))]),
    );
    // No width subtyping, but fields are covariant.
    assert_eq!(is_subtype(&globals, 0, &wide, &narrow, FUEL), Some(false));
    assert_eq!(is_subtype(&globals, 0, &narrow, &lifted, FUEL), Some(true));
    assert_eq!(is_subtype(&globals, 0, &lifted, &narrow, FUEL), Some(false));
}

#[test]
fn alpha_invariance_through_records() {
    let globals = Globals::new();
    let r1 = eval0(
        &globals,
        &Term::RecordTerm(vec![("f".to_string(), Rc::new(lam("x", Term::Local(0))))]),
    );
    let r2 = eval0(
        &globals,
        &Term::RecordTerm(vec![("f".to_string(), Rc::new(lam("y", Term::Local(0))))]),
    );
    assert_eq!(is_equal(&globals, 0, &r1, &r2, FUEL), Some(true));
}

#[test]
fn pending_eliminations_resume_when_a_head_unsticks() {
    let globals = globals_with_id();
    // (id id) 5: the inner application is glued; applying it again must
    // reach 5 when fully forced.
    let term = app(app(global("id"), global("id")), s64(5));
    let value = eval0(&globals, &term);
    let forced = value.force(&globals, FUEL).unwrap();
    assert!(matches!(&*forced, Value::Constant(Constant::S64(5))));
}

#[test]
fn find_entry_evaluates_dependent_entries() {
    let globals = Globals::new();
    // { a = 4; b = a }: looking b up sees a's value.
    let record = Term::RecordTerm(vec![
        ("a".to_string(), Rc::new(s64(4))),
        ("b".to_string(), Rc::new(Term::Local(0))),
    ]);
    let value = eval0(&globals, &record);
    let closure = match &*value {
        Value::RecordTerm(closure) => closure,
        _ => panic!("expected a record term value"),
    };
    let found = closure
        .find_entry(&globals, &"b".to_string(), FUEL)
        .expect("fuel should suffice")
        .expect("the b label should be present");
    assert!(matches!(&*found, Value::Constant(Constant::S64(4))));
    let absent = closure
        .find_entry(&globals, &"c".to_string(), FUEL)
        .expect("fuel should suffice");
    assert!(absent.is_none());

    let mut locals = Locals::new();
    assert_eq!(locals.next_level(), 0);
    locals.push(Rc::new(Value::Error));
    assert_eq!(locals.next_level(), 1);
}
