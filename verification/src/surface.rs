//! The surface language: the user-facing term syntax, and the distillation
//! of kernel constants into surface literals.
//!
//! The kernel itself never consumes surface terms; clients elaborate them
//! into the core syntax and read core terms back for display. Only the
//! constant-to-literal direction is part of this crate: numbers render as
//! decimal literals, characters and strings as quoted literals with a
//! minimal escape (backslash, both quotes, newline, tab, carriage return).

use vstd::prelude::*;

use crate::constant::Constant;
use crate::constant::SpecConstant;
use crate::lexer::chars_of;
use crate::lexer::string_push;

verus! {

/// Terms of the surface language.
#[derive(Debug, PartialEq, Eq)]
pub enum TermData {
    /// A name.
    Name(String),
    /// An annotated term.
    Ann(Box<TermData>, Box<TermData>),
    /// A dependent function type: groups of inputs sharing a type, then the
    /// output type.
    FunctionType(Vec<(Vec<String>, TermData)>, Box<TermData>),
    /// A non-dependent function type.
    FunctionArrowType(Box<TermData>, Box<TermData>),
    /// A function abstraction.
    FunctionTerm(Vec<String>, Box<TermData>),
    /// A function elimination applied to several inputs.
    FunctionElim(Box<TermData>, Vec<TermData>),
    /// A record type: label, optional binding name, entry type.
    RecordType(Vec<(String, Option<String>, TermData)>),
    /// A record term: label, optional binding name, entry term.
    RecordTerm(Vec<(String, Option<String>, TermData)>),
    /// A record elimination.
    RecordElim(Box<TermData>, String),
    /// An enumeration type.
    EnumType(Vec<String>),
    /// An enumeration term.
    EnumTerm(String),
    /// An ordered sequence.
    SequenceTerm(Vec<TermData>),
    /// A character literal, quoted and escaped.
    CharTerm(String),
    /// A string literal, quoted and escaped.
    StringTerm(String),
    /// A numeric literal.
    NumberTerm(String),
    /// Error sentinel.
    Error,
}

// --- Decimal rendering ----------------------------------------------------

/// The decimal digit character for a value below ten.
pub open spec fn spec_digit_char(d: nat) -> char {
    ((48 + d) as u8) as char
}

/// The decimal digits of a natural number, most significant first.
pub open spec fn spec_decimal(n: nat) -> Seq<char>
    decreases n,
{
    if n < 10 {
        seq![spec_digit_char(n)]
    } else {
        spec_decimal(n / 10).push(spec_digit_char(n % 10))
    }
}

/// The decimal rendering of an integer: a minus sign for negative values,
/// then the digits of the magnitude.
pub open spec fn spec_decimal_int(v: int) -> Seq<char> {
    if v >= 0 {
        spec_decimal(v as nat)
    } else {
        seq!['-'] + spec_decimal((-v) as nat)
    }
}

/// Render an unsigned value in decimal.
fn decimal_u64(n: u64) -> (r: String)
    ensures
        r@ == spec_decimal(n as nat),
    decreases n,
{
    if n < 10 {
        let mut s = String::new();
        string_push(&mut s, ((48 + n) as u8) as char);
        proof {
            assert(s@ =~= spec_decimal(n as nat));
        }
        s
    } else {
        let mut s = decimal_u64(n / 10);
        string_push(&mut s, ((48 + (n % 10)) as u8) as char);
        s
    }
}

/// Render a signed value in decimal.
fn decimal_i64(v: i64) -> (r: String)
    ensures
        r@ == spec_decimal_int(v as int),
{
    if v >= 0 {
        decimal_u64(v as u64)
    } else {
        let m: u64 = (-(v + 1)) as u64 + 1;
        let mut s = String::new();
        string_push(&mut s, '-');
        let digits = decimal_u64(m);
        let mut i: usize = 0;
        let n = digits.as_str().unicode_len();
        while i < n
            invariant
                i <= n,
                n == digits@.len(),
                s@ =~= seq!['-'] + digits@.subrange(0, i as int),
            decreases n - i,
        {
            let c = digits.as_str().get_char(i);
            string_push(&mut s, c);
            i = i + 1;
            proof {
                assert(s@ =~= seq!['-'] + digits@.subrange(0, i as int));
            }
        }
        proof {
            assert(digits@.subrange(0, n as int) =~= digits@);
            assert(s@ =~= spec_decimal_int(v as int));
        }
        s
    }
}

// --- Escaping -------------------------------------------------------------

/// The escape of one character: backslash, both quotes, newline, tab and
/// carriage return are escaped; everything else stands for itself.
pub open spec fn spec_escape_char(c: char) -> Seq<char> {
    if c == '\\' {
        seq!['\\', '\\']
    } else if c == '\'' {
        seq!['\\', '\'']
    } else if c == '"' {
        seq!['\\', '"']
    } else if c == '\n' {
        seq!['\\', 'n']
    } else if c == '\t' {
        seq!['\\', 't']
    } else if c == '\r' {
        seq!['\\', 'r']
    } else {
        seq![c]
    }
}

/// The escape of a character sequence.
pub open spec fn spec_escape(s: Seq<char>) -> Seq<char>
    decreases s,
{
    if s.len() == 0 {
        Seq::empty()
    } else {
        spec_escape_char(s[0]) + spec_escape(s.skip(1))
    }
}

/// A quoted, escaped literal: the delimiter, the escaped content, the
/// delimiter again.
pub open spec fn spec_quoted(s: Seq<char>, quote: char) -> Seq<char> {
    seq![quote] + spec_escape(s) + seq![quote]
}

/// Append the escape of one character.
fn push_escaped(out: &mut String, c: char)
    ensures
        final(out)@ == old(out)@ + spec_escape_char(c),
{
    if c == '\\' {
        string_push(out, '\\');
        string_push(out, '\\');
    } else if c == '\'' {
        string_push(out, '\\');
        string_push(out, '\'');
    } else if c == '"' {
        string_push(out, '\\');
        string_push(out, '"');
    } else if c == '\n' {
        string_push(out, '\\');
        string_push(out, 'n');
    } else if c == '\t' {
        string_push(out, '\\');
        string_push(out, 't');
    } else if c == '\r' {
        string_push(out, '\\');
        string_push(out, 'r');
    } else {
        string_push(out, c);
    }
    proof {
        assert(out@ =~= old(out)@ + spec_escape_char(c));
    }
}

/// A quoted, escaped rendering of a character sequence.
fn quoted(cs: &Vec<char>, quote: char) -> (r: String)
    ensures
        r@ == spec_quoted(cs@, quote),
{
    let mut out = String::new();
    string_push(&mut out, quote);
    let mut i: usize = 0;
    proof {
        assert(spec_escape_prefix(cs@, 0) =~= Seq::<char>::empty());
    }
    while i < cs.len()
        invariant
            i <= cs@.len(),
            out@ =~= seq![quote] + spec_escape_prefix(cs@, i as nat),
        decreases cs@.len() - i,
    {
        push_escaped(&mut out, cs[i]);
        i = i + 1;
        proof {
            lemma_escape_prefix_step(cs@, (i - 1) as nat);
            assert(out@ =~= seq![quote] + spec_escape_prefix(cs@, i as nat));
        }
    }
    string_push(&mut out, quote);
    proof {
        lemma_escape_prefix_full(cs@, cs@.len());
        assert(cs@.take(cs@.len() as int) =~= cs@);
        assert(out@ =~= spec_quoted(cs@, quote));
    }
    out
}

/// The escape of the first `i` characters of a sequence.
pub open spec fn spec_escape_prefix(s: Seq<char>, i: nat) -> Seq<char>
    decreases i,
{
    if i == 0 || i > s.len() {
        Seq::empty()
    } else {
        spec_escape_prefix(s, (i - 1) as nat) + spec_escape_char(s[i - 1])
    }
}

/// One step of the escaped prefix.
proof fn lemma_escape_prefix_step(s: Seq<char>, i: nat)
    requires
        i < s.len(),
    ensures
        spec_escape_prefix(s, i + 1) == spec_escape_prefix(s, i) + spec_escape_char(s[i as int]),
{
}

/// The full escaped prefix is the escape of the whole sequence.
proof fn lemma_escape_prefix_full(s: Seq<char>, i: nat)
    requires
        i <= s.len(),
    ensures
        spec_escape_prefix(s, i) == spec_escape(s.take(i as int)),
    decreases i,
{
    if i == 0 {
        assert(s.take(0) =~= Seq::<char>::empty());
    } else {
        lemma_escape_prefix_full(s, (i - 1) as nat);
        lemma_escape_snoc(s.take(i as int));
        assert(s.take(i as int).drop_last() =~= s.take(i - 1));
        assert(s.take(i as int).last() == s[i - 1]);
    }
}

/// Escaping distributes over dropping the last character.
proof fn lemma_escape_snoc(s: Seq<char>)
    requires
        s.len() > 0,
    ensures
        spec_escape(s) == spec_escape(s.drop_last()) + spec_escape_char(s.last()),
    decreases s,
{
    if s.len() == 1 {
        assert(s.drop_last() =~= Seq::<char>::empty());
        assert(s.skip(1) =~= Seq::<char>::empty());
        assert(spec_escape(s) == spec_escape_char(s[0]) + spec_escape(s.skip(1)));
        assert(spec_escape(Seq::<char>::empty()) =~= Seq::<char>::empty());
        assert(spec_escape(s) =~= spec_escape_char(s[0]));
        assert(spec_escape(s.drop_last()) + spec_escape_char(s.last()) =~= spec_escape_char(
            s[0],
        ));
    } else {
        lemma_escape_snoc(s.skip(1));
        assert(s.skip(1).drop_last() =~= s.drop_last().skip(1));
        assert(s.drop_last()[0] == s[0]);
        assert(spec_escape(s) == spec_escape_char(s[0]) + spec_escape(s.skip(1)));
        assert(spec_escape(s.drop_last()) == spec_escape_char(s[0]) + spec_escape(
            s.drop_last().skip(1),
        ));
        assert(spec_escape(s) =~= spec_escape(s.drop_last()) + spec_escape_char(s.last()));
    }
}

// --- Distillation of constants --------------------------------------------

/// Distill a kernel constant into a surface literal: numbers in decimal
/// (floating point constants by their raw bit pattern), characters and
/// strings quoted and escaped.
pub fn delaborate_constant(constant: &Constant) -> (r: TermData)
    ensures
        match constant@ {
            SpecConstant::U8(v) => r matches TermData::NumberTerm(s) && s@ == spec_decimal(
                v as nat,
            ),
            SpecConstant::U16(v) => r matches TermData::NumberTerm(s) && s@ == spec_decimal(
                v as nat,
            ),
            SpecConstant::U32(v) => r matches TermData::NumberTerm(s) && s@ == spec_decimal(
                v as nat,
            ),
            SpecConstant::U64(v) => r matches TermData::NumberTerm(s) && s@ == spec_decimal(
                v as nat,
            ),
            SpecConstant::S8(v) => r matches TermData::NumberTerm(s) && s@ == spec_decimal_int(
                v as int,
            ),
            SpecConstant::S16(v) => r matches TermData::NumberTerm(s) && s@ == spec_decimal_int(
                v as int,
            ),
            SpecConstant::S32(v) => r matches TermData::NumberTerm(s) && s@ == spec_decimal_int(
                v as int,
            ),
            SpecConstant::S64(v) => r matches TermData::NumberTerm(s) && s@ == spec_decimal_int(
                v as int,
            ),
            SpecConstant::F32(bits) => r matches TermData::NumberTerm(s) && s@ == spec_decimal(
                bits as nat,
            ),
            SpecConstant::F64(bits) => r matches TermData::NumberTerm(s) && s@ == spec_decimal(
                bits as nat,
            ),
            SpecConstant::Char(c) => r matches TermData::CharTerm(s) && s@ == spec_quoted(
                seq![c],
                '\'',
            ),
            SpecConstant::Str(cs) => r matches TermData::StringTerm(s) && s@ == spec_quoted(
                cs,
                '"',
            ),
        },
{
    match constant {
        Constant::U8(v) => TermData::NumberTerm(decimal_u64(*v as u64)),
        Constant::U16(v) => TermData::NumberTerm(decimal_u64(*v as u64)),
        Constant::U32(v) => TermData::NumberTerm(decimal_u64(*v as u64)),
        Constant::U64(v) => TermData::NumberTerm(decimal_u64(*v)),
        Constant::S8(v) => TermData::NumberTerm(decimal_i64(*v as i64)),
        Constant::S16(v) => TermData::NumberTerm(decimal_i64(*v as i64)),
        Constant::S32(v) => TermData::NumberTerm(decimal_i64(*v as i64)),
        Constant::S64(v) => TermData::NumberTerm(decimal_i64(*v)),
        Constant::F32(bits) => TermData::NumberTerm(decimal_u64(*bits as u64)),
        Constant::F64(bits) => TermData::NumberTerm(decimal_u64(*bits)),
        Constant::Char(c) => {
            let mut cs: Vec<char> = Vec::new();
            cs.push(*c);
            let r = TermData::CharTerm(quoted(&cs, '\''));
            proof {
                assert(cs@ =~= seq![*c]);
            }
            r
        },
        Constant::String(text) => {
            let cs = chars_of(text.as_str());
            TermData::StringTerm(quoted(&cs, '"'))
        },
    }
}

} // verus!
