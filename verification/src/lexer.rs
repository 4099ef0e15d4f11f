//! The lexer of the surface language.
//!
//! Tokens are doc comments (`|||` to the end of the line), character,
//! string and numeric literals, names (which may contain `-`), keywords,
//! and punctuation. Whitespace (space, tab, carriage return, newline) and
//! line comments (`--` to the end of the line) are skipped. A character
//! that starts no token is reported as an error entry covering that
//! character, and lexing continues after it.

use vstd::prelude::*;

verus! {

/// Appends one character at the end of the string.
///
/// Relies on `String::push`.
#[verifier::external_body]
pub(crate) fn string_push(s: &mut String, c: char)
    ensures
        final(s)@ == old(s)@.push(c),
{
    s.push(c)
}

/// Tokens in the surface language.
#[derive(Debug, PartialEq, Eq)]
pub enum Token {
    /// A doc comment: `|||` up to and including the end of its line.
    DocComment(String),
    /// A character literal, delimiters included.
    CharLiteral(String),
    /// A string literal, delimiters included.
    StringLiteral(String),
    /// A numeric literal: an optional sign, a digit, then digits, letters,
    /// `_` and `.`.
    NumericLiteral(String),
    /// A name: a letter, then letters, digits and `-`.
    Name(String),
    /// The keyword `as`.
    As,
    /// The keyword `enum`.
    EnumTerm,
    /// The keyword `Enum`.
    EnumType,
    /// The keyword `fun`.
    FunTerm,
    /// The keyword `Fun`.
    FunType,
    /// The keyword `record`.
    RecordTerm,
    /// The keyword `Record`.
    RecordType,
    /// `:`
    Colon,
    /// `,`
    Comma,
    /// `=>`
    DArrow,
    /// `->`
    Arrow,
    /// `.`
    Dot,
    /// `=`
    Equal,
    /// `(`
    LParen,
    /// `)`
    RParen,
    /// `[`
    LBrack,
    /// `]`
    RBrack,
    /// `{`
    LBrace,
    /// `}`
    RBrace,
}

/// A character that no token can start, with the file and the range it was
/// found at.
#[derive(Debug, PartialEq, Eq)]
pub struct LexerError {
    pub file_id: usize,
    pub start: usize,
    pub end: usize,
}

/// Mirror of [`Token`].
pub ghost enum SpecToken {
    DocComment(Seq<char>),
    CharLiteral(Seq<char>),
    StringLiteral(Seq<char>),
    NumericLiteral(Seq<char>),
    Name(Seq<char>),
    As,
    EnumTerm,
    EnumType,
    FunTerm,
    FunType,
    RecordTerm,
    RecordType,
    Colon,
    Comma,
    DArrow,
    Arrow,
    Dot,
    Equal,
    LParen,
    RParen,
    LBrack,
    RBrack,
    LBrace,
    RBrace,
}

/// Mirror of one entry of the token stream: a token with its range, or the
/// range of an offending character.
pub ghost enum SpecSpanned {
    Tok(nat, SpecToken, nat),
    Bad(nat, nat),
}

/// Mirror of a [`Token`].
pub open spec fn token_view(t: Token) -> SpecToken {
    match t {
        Token::DocComment(s) => SpecToken::DocComment(s@),
        Token::CharLiteral(s) => SpecToken::CharLiteral(s@),
        Token::StringLiteral(s) => SpecToken::StringLiteral(s@),
        Token::NumericLiteral(s) => SpecToken::NumericLiteral(s@),
        Token::Name(s) => SpecToken::Name(s@),
        Token::As => SpecToken::As,
        Token::EnumTerm => SpecToken::EnumTerm,
        Token::EnumType => SpecToken::EnumType,
        Token::FunTerm => SpecToken::FunTerm,
        Token::FunType => SpecToken::FunType,
        Token::RecordTerm => SpecToken::RecordTerm,
        Token::RecordType => SpecToken::RecordType,
        Token::Colon => SpecToken::Colon,
        Token::Comma => SpecToken::Comma,
        Token::DArrow => SpecToken::DArrow,
        Token::Arrow => SpecToken::Arrow,
        Token::Dot => SpecToken::Dot,
        Token::Equal => SpecToken::Equal,
        Token::LParen => SpecToken::LParen,
        Token::RParen => SpecToken::RParen,
        Token::LBrack => SpecToken::LBrack,
        Token::RBrack => SpecToken::RBrack,
        Token::LBrace => SpecToken::LBrace,
        Token::RBrace => SpecToken::RBrace,
    }
}

/// Mirror of one entry of the executable token stream.
pub open spec fn spanned_view(e: Result<(usize, Token, usize), LexerError>) -> SpecSpanned {
    match e {
        Result::Ok((s, t, e2)) => SpecSpanned::Tok(s as nat, token_view(t), e2 as nat),
        Result::Err(err) => SpecSpanned::Bad(err.start as nat, err.end as nat),
    }
}

/// Mirror of the executable token stream.
pub open spec fn spanned_seq_view(
    s: Seq<Result<(usize, Token, usize), LexerError>>,
) -> Seq<SpecSpanned>
    decreases s,
{
    if s.len() == 0 {
        Seq::empty()
    } else {
        spanned_seq_view(s.drop_last()).push(spanned_view(s.last()))
    }
}

/// Pointwise description of [`spanned_seq_view`].
pub proof fn lemma_spanned_seq_view(s: Seq<Result<(usize, Token, usize), LexerError>>)
    ensures
        spanned_seq_view(s).len() == s.len(),
        forall|i: int|
            0 <= i < s.len() ==> #[trigger] spanned_seq_view(s)[i] == spanned_view(s[i]),
    decreases s,
{
    if s.len() > 0 {
        lemma_spanned_seq_view(s.drop_last());
    }
}

// --- Character classes ----------------------------------------------------

/// Whitespace: space, tab, carriage return, newline.
pub open spec fn spec_is_ws(c: char) -> bool {
    c == ' ' || c == '\t' || c == '\r' || c == '\n'
}

/// An ASCII decimal digit.
pub open spec fn spec_is_digit(c: char) -> bool {
    48 <= c as u32 <= 57
}

/// An ASCII letter.
pub open spec fn spec_is_alpha(c: char) -> bool {
    (65 <= c as u32 <= 90) || (97 <= c as u32 <= 122)
}

/// A character that may continue a name: a letter, a digit or `-`.
pub open spec fn spec_is_name_cont(c: char) -> bool {
    spec_is_alpha(c) || spec_is_digit(c) || c == '-'
}

/// A character that may continue a numeric literal: a letter, a digit, `_`
/// or `.`.
pub open spec fn spec_is_num_cont(c: char) -> bool {
    spec_is_alpha(c) || spec_is_digit(c) || c == '_' || c == '.'
}

/// The keyword standing for a name, if there is one.
pub open spec fn spec_keyword(text: Seq<char>) -> SpecToken {
    if text == "as"@ {
        SpecToken::As
    } else if text == "enum"@ {
        SpecToken::EnumTerm
    } else if text == "Enum"@ {
        SpecToken::EnumType
    } else if text == "fun"@ {
        SpecToken::FunTerm
    } else if text == "Fun"@ {
        SpecToken::FunType
    } else if text == "record"@ {
        SpecToken::RecordTerm
    } else if text == "Record"@ {
        SpecToken::RecordType
    } else {
        SpecToken::Name(text)
    }
}

// --- The model of scanning ------------------------------------------------

/// The index just past the first newline at or after `pos`, or the length
/// of the input when no newline follows.
pub open spec fn spec_past_line(cs: Seq<char>, pos: nat) -> nat
    decreases cs.len() - pos,
{
    if pos >= cs.len() {
        cs.len()
    } else if cs[pos as int] == '\n' {
        pos + 1
    } else {
        spec_past_line(cs, pos + 1)
    }
}

/// The index just past the closing quote of a literal whose body starts at
/// `pos`; a backslash escapes the next character. `None` when the literal
/// never closes.
pub open spec fn spec_past_quoted(cs: Seq<char>, pos: nat, quote: char) -> Option<nat>
    decreases cs.len() - pos,
{
    if pos >= cs.len() {
        Option::None
    } else if cs[pos as int] == quote {
        Option::Some((pos + 1) as nat)
    } else if cs[pos as int] == '\\' {
        if pos + 1 < cs.len() {
            spec_past_quoted(cs, pos + 2, quote)
        } else {
            Option::None
        }
    } else {
        spec_past_quoted(cs, pos + 1, quote)
    }
}

/// The first index at or after `pos` whose character fails the predicate
/// selected by `name_cont` (name continuation when true, numeric
/// continuation when false).
pub open spec fn spec_scan_while(cs: Seq<char>, pos: nat, name_cont: bool) -> nat
    decreases cs.len() - pos,
{
    if pos >= cs.len() {
        cs.len()
    } else if (if name_cont {
        spec_is_name_cont(cs[pos as int])
    } else {
        spec_is_num_cont(cs[pos as int])
    }) {
        spec_scan_while(cs, pos + 1, name_cont)
    } else {
        pos
    }
}

/// The scan past a line never moves backwards, and stays in the input.
pub proof fn lemma_spec_past_line(cs: Seq<char>, pos: nat)
    ensures
        pos <= cs.len() ==> pos <= spec_past_line(cs, pos) <= cs.len(),
        pos > cs.len() ==> spec_past_line(cs, pos) == cs.len(),
    decreases cs.len() - pos,
{
    if pos < cs.len() && cs[pos as int] != '\n' {
        lemma_spec_past_line(cs, pos + 1);
    }
}

/// The scan past a quoted literal moves strictly forwards, and stays in
/// the input.
pub proof fn lemma_spec_past_quoted(cs: Seq<char>, pos: nat, quote: char)
    ensures
        match spec_past_quoted(cs, pos, quote) {
            Option::Some(e) => pos < e <= cs.len(),
            Option::None => true,
        },
    decreases cs.len() - pos,
{
    if pos < cs.len() && cs[pos as int] != quote {
        if cs[pos as int] == '\\' {
            if pos + 1 < cs.len() {
                lemma_spec_past_quoted(cs, pos + 2, quote);
            }
        } else {
            lemma_spec_past_quoted(cs, pos + 1, quote);
        }
    }
}

/// The scan over continuation characters never moves backwards, and stays
/// in the input.
pub proof fn lemma_spec_scan_while(cs: Seq<char>, pos: nat, name_cont: bool)
    ensures
        pos <= cs.len() ==> pos <= spec_scan_while(cs, pos, name_cont) <= cs.len(),
    decreases cs.len() - pos,
{
    if pos < cs.len() {
        lemma_spec_scan_while(cs, pos + 1, name_cont);
    }
}

/// The token stream of the input from `pos` on.
pub open spec fn spec_lex(cs: Seq<char>, pos: nat) -> Seq<SpecSpanned>
    decreases cs.len() - pos,
    via spec_lex_decreases
{
    if pos >= cs.len() {
        Seq::empty()
    } else {
        let c = cs[pos as int];
        if spec_is_ws(c) {
            spec_lex(cs, pos + 1)
        } else if c == '-' && pos + 1 < cs.len() && cs[pos + 1 as int] == '-' {
            let after = spec_past_line(cs, pos + 2);
            if after >= cs.len() {
                Seq::empty()
            } else {
                spec_lex(cs, after)
            }
        } else if c == '|' && pos + 2 < cs.len() && cs[pos + 1 as int] == '|' && cs[pos + 2 as int] == '|' {
            let end = spec_past_line(cs, pos + 3);
            seq![
                SpecSpanned::Tok(pos, SpecToken::DocComment(cs.subrange(pos as int, end as int)), end),
            ] + if end >= cs.len() {
                Seq::empty()
            } else {
                spec_lex(cs, end)
            }
        } else if c == '\'' {
            match spec_past_quoted(cs, pos + 1, '\'') {
                Option::Some(end) => seq![
                    SpecSpanned::Tok(
                        pos,
                        SpecToken::CharLiteral(cs.subrange(pos as int, end as int)),
                        end,
                    ),
                ] + spec_lex(cs, end),
                Option::None => seq![SpecSpanned::Bad(pos, cs.len())],
            }
        } else if c == '"' {
            match spec_past_quoted(cs, pos + 1, '"') {
                Option::Some(end) => seq![
                    SpecSpanned::Tok(
                        pos,
                        SpecToken::StringLiteral(cs.subrange(pos as int, end as int)),
                        end,
                    ),
                ] + spec_lex(cs, end),
                Option::None => seq![SpecSpanned::Bad(pos, cs.len())],
            }
        } else if spec_is_digit(c) || ((c == '-' || c == '+') && pos + 1 < cs.len()
            && spec_is_digit(cs[pos + 1 as int])) {
            let end = spec_scan_while(cs, pos + 1, false);
            seq![
                SpecSpanned::Tok(
                    pos,
                    SpecToken::NumericLiteral(cs.subrange(pos as int, end as int)),
                    end,
                ),
            ] + spec_lex(cs, end)
        } else if spec_is_alpha(c) {
            let end = spec_scan_while(cs, pos + 1, true);
            seq![
                SpecSpanned::Tok(pos, spec_keyword(cs.subrange(pos as int, end as int)), end),
            ] + spec_lex(cs, end)
        } else if c == '=' && pos + 1 < cs.len() && cs[pos + 1 as int] == '>' {
            seq![SpecSpanned::Tok(pos, SpecToken::DArrow, pos + 2)] + spec_lex(cs, pos + 2)
        } else if c == '-' && pos + 1 < cs.len() && cs[pos + 1 as int] == '>' {
            seq![SpecSpanned::Tok(pos, SpecToken::Arrow, pos + 2)] + spec_lex(cs, pos + 2)
        } else if c == ':' {
            seq![SpecSpanned::Tok(pos, SpecToken::Colon, pos + 1)] + spec_lex(cs, pos + 1)
        } else if c == ',' {
            seq![SpecSpanned::Tok(pos, SpecToken::Comma, pos + 1)] + spec_lex(cs, pos + 1)
        } else if c == '.' {
            seq![SpecSpanned::Tok(pos, SpecToken::Dot, pos + 1)] + spec_lex(cs, pos + 1)
        } else if c == '=' {
            seq![SpecSpanned::Tok(pos, SpecToken::Equal, pos + 1)] + spec_lex(cs, pos + 1)
        } else if c == '(' {
            seq![SpecSpanned::Tok(pos, SpecToken::LParen, pos + 1)] + spec_lex(cs, pos + 1)
        } else if c == ')' {
            seq![SpecSpanned::Tok(pos, SpecToken::RParen, pos + 1)] + spec_lex(cs, pos + 1)
        } else if c == '[' {
            seq![SpecSpanned::Tok(pos, SpecToken::LBrack, pos + 1)] + spec_lex(cs, pos + 1)
        } else if c == ']' {
            seq![SpecSpanned::Tok(pos, SpecToken::RBrack, pos + 1)] + spec_lex(cs, pos + 1)
        } else if c == '{' {
            seq![SpecSpanned::Tok(pos, SpecToken::LBrace, pos + 1)] + spec_lex(cs, pos + 1)
        } else if c == '}' {
            seq![SpecSpanned::Tok(pos, SpecToken::RBrace, pos + 1)] + spec_lex(cs, pos + 1)
        } else {
            seq![SpecSpanned::Bad(pos, pos + 1)] + spec_lex(cs, pos + 1)
        }
    }
}

// --- The executable lexer -------------------------------------------------

/// The characters of a string, in order.
pub(crate) fn chars_of(source: &str) -> (r: Vec<char>)
    ensures
        r@ == source@,
{
    let n = source.unicode_len();
    let mut out: Vec<char> = Vec::new();
    let mut i: usize = 0;
    while i < n
        invariant
            i <= n,
            n == source@.len(),
            out@.len() == i,
            forall|j: int| 0 <= j < i ==> out@[j] == source@[j],
        decreases n - i,
    {
        let c = source.get_char(i);
        out.push(c);
        i = i + 1;
    }
    proof {
        assert(out@ =~= source@);
    }
    out
}

/// The text of the characters in the given range.
fn chars_to_string(cs: &Vec<char>, a: usize, b: usize) -> (r: String)
    requires
        a <= b <= cs@.len(),
    ensures
        r@ == cs@.subrange(a as int, b as int),
{
    let mut out = String::new();
    let mut i: usize = a;
    while i < b
        invariant
            a <= i <= b <= cs@.len(),
            out@ =~= cs@.subrange(a as int, i as int),
        decreases b - i,
    {
        string_push(&mut out, cs[i]);
        i = i + 1;
        proof {
            assert(out@ =~= cs@.subrange(a as int, i as int));
        }
    }
    proof {
        assert(out@ =~= cs@.subrange(a as int, b as int));
    }
    out
}

/// The token a name stands for: a keyword where the text is one, else the
/// name itself.
fn keyword_of(text: String) -> (r: Token)
    ensures
        token_view(r) == spec_keyword(text@),
{
    if text.eq(&String::from_str("as")) {
        Token::As
    } else if text.eq(&String::from_str("enum")) {
        Token::EnumTerm
    } else if text.eq(&String::from_str("Enum")) {
        Token::EnumType
    } else if text.eq(&String::from_str("fun")) {
        Token::FunTerm
    } else if text.eq(&String::from_str("Fun")) {
        Token::FunType
    } else if text.eq(&String::from_str("record")) {
        Token::RecordTerm
    } else if text.eq(&String::from_str("Record")) {
        Token::RecordType
    } else {
        Token::Name(text)
    }
}

/// The index just past the first newline at or after `pos`.
fn past_line(cs: &Vec<char>, pos: usize) -> (r: usize)
    requires
        pos <= cs@.len(),
    ensures
        r == spec_past_line(cs@, pos as nat),
        pos <= r <= cs@.len(),
    decreases cs@.len() - pos,
{
    if pos == cs.len() {
        pos
    } else if cs[pos] == '\n' {
        pos + 1
    } else {
        past_line(cs, pos + 1)
    }
}

/// The index just past the closing quote, scanning over escapes.
fn past_quoted(cs: &Vec<char>, pos: usize, quote: char) -> (r: Option<usize>)
    requires
        pos <= cs@.len(),
    ensures
        spec_past_quoted(cs@, pos as nat, quote) == (match r {
            Option::Some(e) => Option::Some(e as nat),
            Option::None => Option::<nat>::None,
        }),
        match r {
            Option::Some(e) => pos < e <= cs@.len(),
            Option::None => true,
        },
    decreases cs@.len() - pos,
{
    if pos == cs.len() {
        Option::None
    } else if cs[pos] == quote {
        Option::Some(pos + 1)
    } else if cs[pos] == '\\' {
        if cs.len() - pos > 1 {
            past_quoted(cs, pos + 2, quote)
        } else {
            Option::None
        }
    } else {
        past_quoted(cs, pos + 1, quote)
    }
}

/// The first index at or after `pos` that does not continue a name (when
/// `name_cont`) or a numeric literal (otherwise).
fn scan_while(cs: &Vec<char>, pos: usize, name_cont: bool) -> (r: usize)
    requires
        pos <= cs@.len(),
    ensures
        r == spec_scan_while(cs@, pos as nat, name_cont),
        pos <= r <= cs@.len(),
    decreases cs@.len() - pos,
{
    if pos == cs.len() {
        pos
    } else {
        let c = cs[pos];
        let cont = if name_cont {
            is_alpha(c) || is_digit(c) || c == '-'
        } else {
            is_alpha(c) || is_digit(c) || c == '_' || c == '.'
        };
        if cont {
            scan_while(cs, pos + 1, name_cont)
        } else {
            pos
        }
    }
}

/// Whether the character is an ASCII decimal digit.
fn is_digit(c: char) -> (r: bool)
    ensures
        r == spec_is_digit(c),
{
    let u = c as u32;
    48 <= u && u <= 57
}

/// Whether the character is an ASCII letter.
fn is_alpha(c: char) -> (r: bool)
    ensures
        r == spec_is_alpha(c),
{
    let u = c as u32;
    (65 <= u && u <= 90) || (97 <= u && u <= 122)
}

/// Lex the input from `pos` on.
fn lex_from(cs: &Vec<char>, file_id: usize, pos: usize) -> (r: Vec<
    Result<(usize, Token, usize), LexerError>,
>)
    requires
        pos <= cs@.len(),
    ensures
        spanned_seq_view(r@) == spec_lex(cs@, pos as nat),
    decreases cs@.len() - pos,
{
    let ghost goal = spec_lex(cs@, pos as nat);
    if pos == cs.len() {
        let r: Vec<Result<(usize, Token, usize), LexerError>> = Vec::new();
        proof {
            assert(spanned_seq_view(r@) =~= goal);
        }
        return r;
    }
    let c = cs[pos];
    if c == ' ' || c == '\t' || c == '\r' || c == '\n' {
        lex_from(cs, file_id, pos + 1)
    } else if c == '-' && cs.len() - pos > 1 && cs[pos + 1] == '-' {
        let after = past_line(cs, pos + 2);
        if after == cs.len() {
            let r: Vec<Result<(usize, Token, usize), LexerError>> = Vec::new();
            proof {
                assert(spanned_seq_view(r@) =~= goal);
            }
            r
        } else {
            lex_from(cs, file_id, after)
        }
    } else if c == '|' && cs.len() - pos > 2 && cs[pos + 1] == '|' && cs[pos + 2] == '|' {
        let end = past_line(cs, pos + 3);
        let text = chars_to_string(cs, pos, end);
        let entry = Result::Ok((pos, Token::DocComment(text), end));
        let mut rest = if end == cs.len() {
            Vec::new()
        } else {
            lex_from(cs, file_id, end)
        };
        emit(entry, &mut rest);
        proof {
            assert(spanned_seq_view(rest@) =~= goal);
        }
        rest
    } else if c == '\'' || c == '"' {
        match past_quoted(cs, pos + 1, c) {
            Option::Some(end) => {
                let text = chars_to_string(cs, pos, end);
                let entry = if c == '\'' {
                    Result::Ok((pos, Token::CharLiteral(text), end))
                } else {
                    Result::Ok((pos, Token::StringLiteral(text), end))
                };
                let mut rest = lex_from(cs, file_id, end);
                emit(entry, &mut rest);
                proof {
                    assert(spanned_seq_view(rest@) =~= goal);
                }
                rest
            },
            Option::None => {
                let mut rest: Vec<Result<(usize, Token, usize), LexerError>> = Vec::new();
                let entry = Result::Err(
                    LexerError { file_id, start: pos, end: cs.len() },
                );
                emit(entry, &mut rest);
                proof {
                    assert(spanned_seq_view(rest@) =~= goal);
                }
                rest
            },
        }
    } else if is_digit(c) || ((c == '-' || c == '+') && cs.len() - pos > 1 && is_digit(
        cs[pos + 1],
    )) {
        let end = scan_while(cs, pos + 1, false);
        let text = chars_to_string(cs, pos, end);
        let entry = Result::Ok((pos, Token::NumericLiteral(text), end));
        let mut rest = lex_from(cs, file_id, end);
        emit(entry, &mut rest);
        proof {
            assert(spanned_seq_view(rest@) =~= goal);
        }
        rest
    } else if is_alpha(c) {
        let end = scan_while(cs, pos + 1, true);
        let text = chars_to_string(cs, pos, end);
        let entry = Result::Ok((pos, keyword_of(text), end));
        let mut rest = lex_from(cs, file_id, end);
        emit(entry, &mut rest);
        proof {
            assert(spanned_seq_view(rest@) =~= goal);
        }
        rest
    } else if c == '=' && cs.len() - pos > 1 && cs[pos + 1] == '>' {
        let entry = Result::Ok((pos, Token::DArrow, pos + 2));
        let mut rest = lex_from(cs, file_id, pos + 2);
        emit(entry, &mut rest);
        proof {
            assert(spanned_seq_view(rest@) =~= goal);
        }
        rest
    } else if c == '-' && cs.len() - pos > 1 && cs[pos + 1] == '>' {
        let entry = Result::Ok((pos, Token::Arrow, pos + 2));
        let mut rest = lex_from(cs, file_id, pos + 2);
        emit(entry, &mut rest);
        proof {
            assert(spanned_seq_view(rest@) =~= goal);
        }
        rest
    } else {
        let tok: Option<Token> = if c == ':' {
            Option::Some(Token::Colon)
        } else if c == ',' {
            Option::Some(Token::Comma)
        } else if c == '.' {
            Option::Some(Token::Dot)
        } else if c == '=' {
            Option::Some(Token::Equal)
        } else if c == '(' {
            Option::Some(Token::LParen)
        } else if c == ')' {
            Option::Some(Token::RParen)
        } else if c == '[' {
            Option::Some(Token::LBrack)
        } else if c == ']' {
            Option::Some(Token::RBrack)
        } else if c == '{' {
            Option::Some(Token::LBrace)
        } else if c == '}' {
            Option::Some(Token::RBrace)
        } else {
            Option::None
        };
        let entry = match tok {
            Option::Some(t) => Result::Ok((pos, t, pos + 1)),
            Option::None => Result::Err(LexerError { file_id, start: pos, end: pos + 1 }),
        };
        let mut rest = lex_from(cs, file_id, pos + 1);
        emit(entry, &mut rest);
        proof {
            assert(spanned_seq_view(rest@) =~= goal);
        }
        rest
    }
}

/// Put an entry at the front of a token stream.
fn emit(
    entry: Result<(usize, Token, usize), LexerError>,
    rest: &mut Vec<Result<(usize, Token, usize), LexerError>>,
)
    ensures
        spanned_seq_view(final(rest)@) == seq![spanned_view(entry)] + spanned_seq_view(
            old(rest)@,
        ),
{
    proof {
        lemma_spanned_seq_view(rest@);
    }
    let ghost e = entry;
    rest.insert(0, entry);
    proof {
        lemma_spanned_seq_view(rest@);
        assert(spanned_seq_view(rest@) =~= seq![spanned_view(e)] + spanned_seq_view(
            old(rest)@,
        ));
    }
}

/// Lex a source string into its token stream: tokens with their ranges, or
/// error entries for characters that start no token.
pub fn tokens(file_id: usize, source: &str) -> (r: Vec<
    Result<(usize, Token, usize), LexerError>,
>)
    ensures
        spanned_seq_view(r@) == spec_lex(source@, 0),
{
    let cs = chars_of(source);
    lex_from(&cs, file_id, 0)
}

/// Termination of [`spec_lex`]: every scan moves strictly forwards.
#[via_fn]
proof fn spec_lex_decreases(cs: Seq<char>, pos: nat) {
    if pos < cs.len() {
        lemma_spec_past_line(cs, pos + 2);
        lemma_spec_past_line(cs, pos + 3);
        lemma_spec_past_quoted(cs, pos + 1, '\'');
        lemma_spec_past_quoted(cs, pos + 1, '"');
        lemma_spec_scan_while(cs, pos + 1, false);
        lemma_spec_scan_while(cs, pos + 1, true);
    }
}

} // verus!
