use espr::ast::literal::{Literal, Logical};
use espr::parser::basis::{
    chars_of, digits_to_u64, has_keyword, has_prefix, only_digits, scan_digits, scan_word,
};
use espr::parser::expression::{
    expression_at, primary_at, read_identifier, read_unsupported, reserved, simple_factor_at,
    Primary,
};
use espr::parser::literal::{
    hex_digit, integer_literal_at, literal_at, logical_literal_at, read_code_point, read_exponent,
    read_logical, read_real, read_string, real_literal_at, string_literal_at,
};
use espr::parser::operator::{
    add_like_op_at, multiplication_like_op_at, power_op_at, read_add_like_op, read_power_op,
    read_rel_op_extended, read_unary_op, rel_op_extended_at, unary_op_at, AddLikeOp, PowerOp,
    RelOp, RelOpExtended, UnaryOp,
};
use espr::parser::outcome::{Construct, ParseError, Production};
use espr::parser::remark::{find_close, find_line_end, skip_trivia, text_of, Remark};

fn chars(text: &str) -> Vec<char> {
    text.chars().collect()
}

#[test]
fn characters_of_a_text() {
    assert_eq!(chars_of("a\u{e9}\u{1F600}"), vec!['a', '\u{e9}', '\u{1F600}']);
    assert_eq!(chars_of(""), Vec::<char>::new());
}

#[test]
fn runs_of_digits_and_words() {
    let text = chars("ab12_c 345x");
    assert_eq!(scan_digits(&text, 0), 0);
    assert_eq!(scan_digits(&text, 2), 4);
    assert_eq!(scan_digits(&text, 7), 10);
    assert_eq!(scan_digits(&text, 11), 11);
    assert_eq!(scan_word(&text, 0), 6);
    assert_eq!(scan_word(&text, 6), 6);
    assert_eq!(scan_word(&text, 7), 11);
    assert_eq!(digits_to_u64(&text, 2, 4), Some(12));
    assert_eq!(digits_to_u64(&text, 7, 10), Some(345));
    assert_eq!(digits_to_u64(&text, 7, 7), Some(0));
    assert!(only_digits(&chars("0123456789")));
    assert!(only_digits(&chars("")));
    assert!(!only_digits(&chars("12a")));
    assert!(!only_digits(&chars("\u{661}")));
}

#[test]
fn prefixes_and_keywords() {
    let text = chars("x ANDY AND");
    assert!(has_prefix(&text, 2, "AND"));
    assert!(!has_keyword(&text, 2, "AND"));
    assert!(has_keyword(&text, 2, "ANDY"));
    assert!(has_keyword(&text, 7, "AND"));
    assert!(!has_prefix(&text, 8, "AND"));
    assert!(has_prefix(&text, 10, ""));
    assert!(!has_prefix(&text, 0, "x ANDY AND."));
    assert!(reserved(&text, 7));
    assert!(!reserved(&text, 2));
    assert!(!reserved(&text, 0));
}

#[test]
fn blank_space_and_remarks() {
    let text = chars(" \t(* a *)\r\n-- b\n(**)--\nx -- c");
    let (remarks, end) = skip_trivia(&text, 0);
    assert_eq!(
        remarks,
        vec![
            Remark::Embedded(" a ".to_string()),
            Remark::Tail(" b".to_string()),
            Remark::Embedded(String::new()),
            Remark::Tail(String::new()),
        ]
    );
    assert_eq!(end, 23);
    assert_eq!(text[end], 'x');
    assert_eq!(skip_trivia(&text, 23), (vec![], 23));
    assert_eq!(skip_trivia(&text, 24), (vec![Remark::Tail(" c".to_string())], text.len()));
    assert_eq!(skip_trivia(&text, text.len()), (vec![], text.len()));
    assert_eq!(find_close(&text, 0), Some(7));
    assert_eq!(find_close(&text, 8), Some(18));
    assert_eq!(find_close(&text, 19), None);
    assert_eq!(find_line_end(&text, 0), 10);
    assert_eq!(find_line_end(&text, 24), text.len());
    assert_eq!(text_of(&text, 2, 9), "(* a *)");
    assert_eq!(text_of(&text, 5, 5), "");
    let star = chars("(*)");
    assert_eq!(skip_trivia(&star, 0), (vec![], 0));
    let nested = chars("(* (* *) *) x");
    assert_eq!(skip_trivia(&nested, 0), (vec![Remark::Embedded(" (* ".to_string())], 9));
}

#[test]
fn lexemes_at_positions() {
    let text = chars("xTRUE 1.5e-3 'a' \"00000041\" e+7");
    assert_eq!(read_logical(&text, 1), Some((Logical::True, 5)));
    assert_eq!(read_logical(&text, 0), None);
    let (real, end) = read_real(&text, 6).unwrap();
    assert_eq!((real.lexeme(), end), ("1.5e-3".to_string(), 12));
    assert_eq!(read_real(&text, 5), None);
    assert_eq!(read_string(&text, 13), Some(("a".to_string(), 16)));
    assert_eq!(read_string(&text, 17), Some(("A".to_string(), 27)));
    assert_eq!(read_string(&text, 12), None);
    assert_eq!(read_code_point(&text, 18), Some(0x41));
    assert_eq!(read_code_point(&text, 19), None);
    assert_eq!(read_code_point(&chars("FFFFFFFF"), 0), Some(0xFFFF_FFFF));
    assert_eq!(read_code_point(&chars("0000abCD"), 0), Some(0xABCD));
    let (exponent, end) = read_exponent(&text, 28).unwrap();
    assert_eq!((exponent.negative, exponent.digits.as_str(), end), (false, "7", 31));
    assert_eq!(read_exponent(&text, 29), None);
    assert_eq!(hex_digit('7'), Some(7));
    assert_eq!(hex_digit('a'), Some(10));
    assert_eq!(hex_digit('F'), Some(15));
    assert_eq!(hex_digit('g'), None);
    assert_eq!(read_identifier(&text, 0), Some(("xTRUE".to_string(), 5)));
    assert_eq!(read_identifier(&text, 1), None);
    assert_eq!(read_identifier(&text, 6), None);
}

#[test]
fn operators_at_positions() {
    let text = chars("a ** b + -c <= NOT d");
    assert_eq!(read_power_op(&text, 2), Some((PowerOp::Power, 4)));
    assert_eq!(read_add_like_op(&text, 7), Some((AddLikeOp::Plus, 8)));
    assert_eq!(read_unary_op(&text, 9), Some((UnaryOp::Minus, 10)));
    assert_eq!(read_unary_op(&text, 15), Some((UnaryOp::Not, 18)));
    assert_eq!(
        read_rel_op_extended(&text, 12),
        Some((RelOpExtended::RelOp(RelOp::LessThanEqual), 14))
    );
    assert_eq!(power_op_at(&text, 1).unwrap().end, 4);
    let syntax = |offset: usize, production: Production| ParseError::SyntaxError { offset, production };
    assert_eq!(power_op_at(&text, 0).err(), Some(syntax(0, Production::PowerOp)));
    assert_eq!(unary_op_at(&text, 4).err(), Some(syntax(5, Production::UnaryOp)));
    assert_eq!(add_like_op_at(&text, 1).err(), Some(syntax(2, Production::AddLikeOp)));
    assert_eq!(
        multiplication_like_op_at(&text, 6).err(),
        Some(syntax(7, Production::MultiplicationLikeOp))
    );
    assert_eq!(rel_op_extended_at(&text, 14).err(), Some(syntax(15, Production::RelOpExtended)));
    assert_eq!(rel_op_extended_at(&text, 20).err(), Some(syntax(20, Production::RelOpExtended)));
    assert!(ParseError::UnsupportedConstruct { offset: 3, construct: Construct::Interval }.is_fatal());
    assert!(!syntax(3, Production::Primary).is_fatal());
    assert_eq!(syntax(3, Production::Primary).offset(), 3);
}

#[test]
fn parsers_at_positions() {
    let text = chars("x = (UNKNOWN) y 12 'z' q(");
    let e = expression_at(&text, 0).unwrap();
    assert_eq!(e.end, 13);
    assert!(e.remarks.is_empty());
    let f = simple_factor_at(&text, 3).unwrap();
    assert_eq!(f.end, 13);
    let p = primary_at(&text, 5).unwrap();
    assert_eq!((p.value, p.end), (Primary::Literal(Literal::Logical(Logical::Unknown)), 12));
    assert_eq!(logical_literal_at(&text, 5).unwrap().end, 12);
    assert_eq!(literal_at(&text, 15).unwrap().end, 18);
    let n = integer_literal_at(&text, 15).unwrap();
    assert_eq!((n.value, n.end), (12, 18));
    let r = real_literal_at(&text, 15).unwrap();
    assert_eq!((r.value.lexeme(), r.end), ("12.".to_string(), 18));
    let s = string_literal_at(&text, 18).unwrap();
    assert_eq!((s.value, s.end), ("z".to_string(), 22));
    assert_eq!(read_unsupported(&text, 23), Some(Construct::EntityConstructor));
    assert_eq!(read_unsupported(&text, 14), None);
    assert_eq!(
        expression_at(&text, 22).err(),
        Some(ParseError::UnsupportedConstruct { offset: 23, construct: Construct::EntityConstructor })
    );
    assert_eq!(
        expression_at(&text, text.len()).err(),
        Some(ParseError::SyntaxError { offset: text.len(), production: Production::Primary })
    );
}
