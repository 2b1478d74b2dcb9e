use espr::ast::literal::{Exponent, Literal, Logical, Real};
use espr::parser::expression::{Expr, Primary, PrimaryOrExpression, SimpleFactor};
use espr::parser::operator::{AddLikeOp, UnaryOp};
use espr::parser::outcome::{Construct, ParseError, Production};
use espr::parser::remark::Remark;

fn digits(integral: &str) -> Real {
    Real { integral: integral.to_string(), fraction: String::new(), exponent: None }
}

fn float(real: &Real) -> f64 {
    real.lexeme().parse().unwrap()
}

#[test]
fn expr() {
    let (residual, e) = espr::parser::expression::expression("1 - 2").unwrap();
    println!("{:?}", e);
    assert_eq!(residual, "");
}

#[test]
fn simple_factor() {
    let (residual, (p, _remarks)) = espr::parser::expression::simple_factor("123").unwrap();
    assert_eq!(p, Primary::Literal(Literal::Real(digits("123"))).into());
    assert_eq!(residual, "");

    let (residual, (p, _remarks)) = espr::parser::expression::simple_factor("-123").unwrap();
    assert_eq!(
        p,
        SimpleFactor::PrimaryOrExpression {
            unary_op: Some(UnaryOp::Minus),
            primary_or_expression: PrimaryOrExpression::Primary(Primary::Literal(Literal::Real(
                digits("123")
            ))),
        }
    );
    assert_eq!(residual, "");
}

#[test]
fn simple_factor_expression() {
    let (residual, (expr, _remarks)) = espr::parser::expression::expression("1 + 2").unwrap();
    assert_eq!(residual, "");

    let (residual, (sf, _remarks)) = espr::parser::expression::simple_factor("(1 + 2)").unwrap();
    assert_eq!(residual, "");
    match sf {
        SimpleFactor::PrimaryOrExpression { unary_op: _, primary_or_expression } => {
            match primary_or_expression {
                PrimaryOrExpression::Expression(e) => assert_eq!(*e, expr),
                _ => panic!("Must be expression"),
            }
        }
    }
}

#[test]
fn primary() {
    let (residual, (p, _remarks)) = espr::parser::expression::primary("123").unwrap();
    assert_eq!(p, Literal::Real(digits("123")).into());
    assert_eq!(residual, "");
}

#[test]
fn integer_literal() {
    let (residual, (value, _remarks)) = espr::parser::literal::integer_literal("123").unwrap();
    assert_eq!(value, 123);
    assert_eq!(residual, "");
}

#[test]
fn real_literal() {
    let (residual, (value, _remarks)) = espr::parser::literal::real_literal("123").unwrap();
    assert_eq!(float(&value), 123.0);
    assert_eq!(residual, "");

    let (residual, (value, _remarks)) = espr::parser::literal::real_literal("123.456").unwrap();
    assert_eq!(float(&value), 123.456);
    assert_eq!(residual, "");

    let (residual, (value, _remarks)) = espr::parser::literal::real_literal("1.23e-5").unwrap();
    assert_eq!(float(&value), 1.23e-5);
    assert_eq!(residual, "");
}

#[test]
fn real_literal_keeps_its_parts() {
    let (residual, (value, remarks)) = espr::parser::literal::real_literal("1.23e-5;").unwrap();
    assert_eq!(
        value,
        Real {
            integral: "1".to_string(),
            fraction: "23".to_string(),
            exponent: Some(Exponent { negative: true, digits: "5".to_string() }),
        }
    );
    assert!(remarks.is_empty());
    assert_eq!(residual, ";");
    assert_eq!(value.lexeme(), "1.23e-5");
}

#[test]
fn expression_one_minus_two() {
    let (residual, (e, remarks)) = espr::parser::expression::expression("1 - 2").unwrap();
    let one: SimpleFactor = Primary::Literal(Literal::Real(digits("1"))).into();
    let two: SimpleFactor = Primary::Literal(Literal::Real(digits("2"))).into();
    assert_eq!(
        e,
        Expr::Unary(Expr::Binary {
            op: AddLikeOp::Minus,
            arg1: Expr::Unary(Expr::Unary(one)),
            arg2: Expr::Unary(Expr::Unary(two)),
        })
    );
    assert!(remarks.is_empty());
    assert_eq!(residual, "");
}

#[test]
fn logical_literal_keywords() {
    let parse = espr::parser::literal::logical_literal;
    assert_eq!(parse("TRUE").unwrap(), ("", (Logical::True, vec![])));
    assert_eq!(parse("FALSE").unwrap(), ("", (Logical::False, vec![])));
    assert_eq!(parse("UNKNOWN").unwrap(), ("", (Logical::Unknown, vec![])));
    assert_eq!(parse("TRUE)").unwrap(), (")", (Logical::True, vec![])));
}

#[test]
fn logical_literal_rejects_longer_words() {
    let parse = espr::parser::literal::logical_literal;
    let error = ParseError::SyntaxError { offset: 0, production: Production::LogicalLiteral };
    assert_eq!(parse("TRUEX"), Err(error));
    assert_eq!(parse("TRUE_"), Err(error));
    assert_eq!(parse("FALSE1"), Err(error));
    assert_eq!(parse("TRU"), Err(error));
    assert_eq!(parse("true"), Err(error));
    assert_eq!(parse(""), Err(error));
}

#[test]
fn remarks_come_in_source_order() {
    let input = "(* a *) 1 -- b\n + (* c *) 2";
    let (residual, (_e, remarks)) = espr::parser::expression::expression(input).unwrap();
    assert_eq!(residual, "");
    assert_eq!(
        remarks,
        vec![
            Remark::Embedded(" a ".to_string()),
            Remark::Tail(" b".to_string()),
            Remark::Embedded(" c ".to_string()),
        ]
    );
    let again = espr::parser::expression::expression(input).unwrap();
    assert_eq!(again.1 .1, remarks);
}

#[test]
fn error_offsets_count_bytes() {
    let parse = espr::parser::literal::integer_literal;
    assert_eq!(
        parse("(* \u{e9}\u{e9} *) x"),
        Err(ParseError::SyntaxError { offset: 11, production: Production::IntegerLiteral })
    );
    assert_eq!(
        espr::parser::literal::literal("  %101"),
        Err(ParseError::UnsupportedConstruct { offset: 2, construct: Construct::BinaryLiteral })
    );
}

#[test]
fn real_literal_is_significand_times_power_of_ten() {
    let parse = espr::parser::literal::real_literal;
    let (_, (value, _)) = parse("1.23e-5").unwrap();
    assert_eq!(value.significand(), Some(123));
    assert_eq!(value.scale(), Some(-7));
    assert_eq!(float(&value), 1.23e-5);

    let (_, (value, _)) = parse("123.456").unwrap();
    assert_eq!((value.significand(), value.scale()), (Some(123456), Some(-3)));

    let (_, (value, _)) = parse("123").unwrap();
    assert_eq!((value.significand(), value.scale()), (Some(123), Some(0)));

    let (_, (value, _)) = parse("5.E+3").unwrap();
    assert_eq!((value.significand(), value.scale()), (Some(5), Some(3)));
    assert_eq!(value.exponent.as_ref().unwrap().value(), Some(3));

    let (_, (value, _)) = parse("0.18446744073709551615e-9223372036854775807").unwrap();
    assert_eq!(value.significand(), Some(u64::MAX));
    assert_eq!(value.exponent.as_ref().unwrap().value(), Some(-i64::MAX));
    assert_eq!(value.scale(), None);

    let (_, (value, _)) = parse("18446744073709551616e9223372036854775808").unwrap();
    assert_eq!(value.significand(), None);
    assert_eq!(value.exponent.as_ref().unwrap().value(), None);
    assert_eq!(value.scale(), None);

    let (_, (value, _)) = parse("2e9223372036854775807").unwrap();
    assert_eq!(value.scale(), Some(i64::MAX));

    let by_hand = Real { integral: "1x".to_string(), fraction: String::new(), exponent: None };
    assert_eq!(by_hand.significand(), None);
    assert_eq!(by_hand.scale(), Some(0));
}
