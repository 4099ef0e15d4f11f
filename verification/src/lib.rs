//! A verified kernel for a small dependently typed language, built around
//! normalisation by evaluation: terms are evaluated into a semantic domain of
//! values (with neutral "stuck" applications and glued "unstuck" values), read
//! back into canonical terms, and compared by definitional equality and
//! cumulative subtyping.
//!
//! Each executable operation carries a contract relating it to a mathematical
//! model of the same operation, written as `spec` functions over ghost mirrors
//! of the data types. Because evaluation of arbitrary (ill-typed) terms need
//! not terminate, both the model and the executable code take an explicit fuel
//! bound; running out of fuel is reported as `None` and is distinct from the
//! `Error` sentinel that absorbs ill-formed input.

pub mod alpha;
pub mod constant;
pub mod conv;
pub mod eval;
pub mod fuel;
pub mod laws;
pub mod lexer;
pub mod nameless;
pub mod pretty;
pub mod readback;
pub mod semantics;
pub mod surface;
pub mod term;
pub mod value;

pub use alpha::alpha_term;
pub use alpha::alpha_value;
pub use alpha::lemma_alpha_invariance;
pub use alpha::lemma_is_equal_alpha;
pub use constant::Constant;
pub use constant::SpecConstant;
pub use conv::is_equal;
pub use conv::is_subtype;
pub use conv::spec_is_equal;
pub use conv::spec_is_subtype;
pub use eval::apply_function_elim;
pub use eval::apply_record_elim;
pub use eval::eval_term;
pub use eval::record_elim_type;
pub use fuel::lemma_eval_deterministic;
pub use fuel::lemma_eval_mono;
pub use laws::lemma_cumulativity;
pub use laws::lemma_error_absorption;
pub use laws::lemma_function_type_variance;
pub use laws::lemma_glued_read_back;
pub use laws::lemma_lift_composition;
pub use laws::lemma_is_equal_refl;
pub use laws::lemma_is_subtype_refl;
pub use lexer::LexerError;
pub use lexer::Token;
pub use lexer::tokens;
pub use pretty::Prec;
pub use readback::normalize_term;
pub use readback::read_back_value;
pub use readback::spec_read_back;
pub use semantics::spec_eval;
pub use semantics::spec_force;
pub use surface::TermData;
pub use surface::delaborate_constant;
pub use term::SpecTerm;
pub use term::Term;
pub use value::Elim;
pub use value::FunctionClosure;
pub use value::Globals;
pub use value::Head;
pub use value::LazyValue;
pub use value::Locals;
pub use value::RecordClosure;
pub use value::SpecValue;
pub use value::Unfold;
pub use value::Value;
