use pikelet::Token;
use pikelet::tokens;
use pikelet::Constant;
use pikelet::Prec;
use pikelet::TermData;
use pikelet::delaborate_constant;

fn number_text(constant: &Constant) -> String {
    match delaborate_constant(constant) {
        TermData::NumberTerm(s) => s,
        _ => panic!("expected a numeric literal"),
    }
}

#[test]
fn unsigned_constants_render_in_decimal() {
    assert_eq!(number_text(&Constant::U8(0)), "0");
    assert_eq!(number_text(&Constant::U16(1234)), "1234");
    assert_eq!(number_text(&Constant::U32(305419896)), "305419896");
    assert_eq!(number_text(&Constant::U64(u64::MAX)), "18446744073709551615");
}

#[test]
fn signed_constants_render_in_decimal() {
    assert_eq!(number_text(&Constant::S8(-45)), "-45");
    assert_eq!(number_text(&Constant::S16(300)), "300");
    assert_eq!(number_text(&Constant::S32(-1)), "-1");
    assert_eq!(number_text(&Constant::S64(i64::MIN)), "-9223372036854775808");
    assert_eq!(number_text(&Constant::S64(i64::MAX)), "9223372036854775807");
}

#[test]
fn float_constants_render_as_their_bits() {
    assert_eq!(number_text(&Constant::F32(1065353216)), "1065353216");
    assert_eq!(number_text(&Constant::F64(0)), "0");
}

#[test]
fn char_constants_render_quoted() {
    assert_eq!(
        delaborate_constant(&Constant::Char('a')),
        TermData::CharTerm("'a'".to_string()),
    );
    assert_eq!(
        delaborate_constant(&Constant::Char('\n')),
        TermData::CharTerm("'\\n'".to_string()),
    );
    assert_eq!(
        delaborate_constant(&Constant::Char('\'')),
        TermData::CharTerm("'\\''".to_string()),
    );
}

#[test]
fn string_constants_render_quoted_and_escaped() {
    assert_eq!(
        delaborate_constant(&Constant::String("hi".to_string())),
        TermData::StringTerm("\"hi\"".to_string()),
    );
    assert_eq!(
        delaborate_constant(&Constant::String("a\"b\\c\td".to_string())),
        TermData::StringTerm("\"a\\\"b\\\\c\\td\"".to_string()),
    );
}

#[test]
fn precedence_levels_are_ordered() {
    let levels = [Prec::Term, Prec::Expr, Prec::Arrow, Prec::App, Prec::Atomic];
    for (i, a) in levels.iter().enumerate() {
        assert_eq!(a.rank() as usize, i);
        for b in &levels {
            assert_eq!(
                a.binds_tighter_or_equal(b),
                a.rank() >= b.rank(),
            );
        }
    }
}

#[test]
fn rendered_numbers_lex_as_numeric_literals() {
    let text = number_text(&Constant::S32(-37));
    let entries = tokens(0, text.as_str());
    assert_eq!(entries.len(), 1);
    assert_eq!(
        entries[0].as_ref().unwrap().1,
        Token::NumericLiteral("-37".to_string()),
    );
}
