use espr::ast::literal::{Exponent, Literal, Logical, Real};
use espr::parser::expression::{
    expression, factor, primary, simple_expression, simple_factor, term, Expr, Expression, Factor,
    Primary, PrimaryOrExpression, SimpleExpression, SimpleFactor, Term,
};
use espr::parser::literal::{integer_literal, literal, real_literal, string_literal};
use espr::parser::operator::{
    AddLikeOp, MultiplicationLikeOp, PowerOp, RelOp, RelOpExtended, UnaryOp,
};
use espr::parser::outcome::{Construct, ParseError, Production};
use espr::parser::remark::Remark;

fn number(integral: &str) -> SimpleFactor {
    Primary::Literal(Literal::Real(Real {
        integral: integral.to_string(),
        fraction: String::new(),
        exponent: None,
    }))
    .into()
}

fn name(text: &str) -> SimpleFactor {
    Primary::Identifier(text.to_string()).into()
}

fn as_term(f: SimpleFactor) -> Term {
    Expr::Unary(Expr::Unary(f))
}

fn as_simple_expression(f: SimpleFactor) -> SimpleExpression {
    Expr::Unary(as_term(f))
}

fn syntax_error(offset: usize, production: Production) -> ParseError {
    ParseError::SyntaxError { offset, production }
}

fn unsupported(offset: usize, construct: Construct) -> ParseError {
    ParseError::UnsupportedConstruct { offset, construct }
}

#[test]
fn string_literal_simple_form() {
    assert_eq!(string_literal("'abc' x").unwrap(), (" x", ("abc".to_string(), vec![])));
    assert_eq!(string_literal("''").unwrap(), ("", (String::new(), vec![])));
    assert_eq!(string_literal("'it''s'").unwrap(), ("", ("it's".to_string(), vec![])));
    assert_eq!(string_literal("''''").unwrap(), ("", ("'".to_string(), vec![])));
    assert_eq!(string_literal("'a\nb'").unwrap(), ("", ("a\nb".to_string(), vec![])));
    assert_eq!(string_literal("'\u{e9}t\u{e9}'!").unwrap(), ("!", ("\u{e9}t\u{e9}".to_string(), vec![])));
}

#[test]
fn string_literal_encoded_form() {
    assert_eq!(string_literal("\"00000041\"").unwrap(), ("", ("A".to_string(), vec![])));
    assert_eq!(
        string_literal("\"0000004100000062000000e9\";").unwrap(),
        (";", ("Ab\u{e9}".to_string(), vec![]))
    );
    assert_eq!(string_literal("\"0001F600\"").unwrap(), ("", ("\u{1F600}".to_string(), vec![])));
    assert_eq!(string_literal("\"0010FFFF\"").unwrap(), ("", ("\u{10FFFF}".to_string(), vec![])));
}

#[test]
fn both_string_forms_give_the_same_text() {
    let simple = string_literal("'Ab'").unwrap();
    let encoded = string_literal("\"0000004100000062\"").unwrap();
    assert_eq!(simple.1 .0, encoded.1 .0);
}

#[test]
fn string_literal_rejects() {
    let error = syntax_error(0, Production::StringLiteral);
    assert_eq!(string_literal("'abc"), Err(error));
    assert_eq!(string_literal("'abc''"), Err(error));
    assert_eq!(string_literal("\"\""), Err(error));
    assert_eq!(string_literal("\"0000004\""), Err(error));
    assert_eq!(string_literal("\"0000D800\""), Err(error));
    assert_eq!(string_literal("\"00110000\""), Err(error));
    assert_eq!(string_literal("\"0000004G\""), Err(error));
    assert_eq!(string_literal("\"00000041"), Err(error));
    assert_eq!(string_literal("abc"), Err(error));
    assert_eq!(string_literal("  x"), Err(syntax_error(2, Production::StringLiteral)));
}

#[test]
fn integer_literal_reads_digits() {
    assert_eq!(integer_literal("0").unwrap(), ("", (0, vec![])));
    assert_eq!(integer_literal("007x").unwrap(), ("x", (7, vec![])));
    assert_eq!(integer_literal("12.5").unwrap(), (".5", (12, vec![])));
    assert_eq!(
        integer_literal("18446744073709551615").unwrap(),
        ("", (18446744073709551615, vec![]))
    );
    assert_eq!(
        integer_literal(" (* n *) 42").unwrap(),
        ("", (42, vec![Remark::Embedded(" n ".to_string())]))
    );
}

#[test]
fn integer_literal_rejects() {
    let error = syntax_error(0, Production::IntegerLiteral);
    assert_eq!(integer_literal("-23"), Err(error));
    assert_eq!(integer_literal("+23"), Err(error));
    assert_eq!(integer_literal("x"), Err(error));
    assert_eq!(integer_literal(""), Err(error));
    assert_eq!(integer_literal("18446744073709551616"), Err(error));
    assert_eq!(integer_literal("99999999999999999999999"), Err(error));
}

#[test]
fn real_literal_forms() {
    let real = |integral: &str, fraction: &str, exponent: Option<(bool, &str)>| Real {
        integral: integral.to_string(),
        fraction: fraction.to_string(),
        exponent: exponent
            .map(|(negative, digits)| Exponent { negative, digits: digits.to_string() }),
    };
    assert_eq!(real_literal("23").unwrap(), ("", (real("23", "", None), vec![])));
    assert_eq!(real_literal("1.").unwrap(), ("", (real("1", "", None), vec![])));
    assert_eq!(real_literal("1.E6").unwrap(), ("", (real("1", "", Some((false, "6"))), vec![])));
    assert_eq!(real_literal("3.5e-5").unwrap(), ("", (real("3", "5", Some((true, "5"))), vec![])));
    assert_eq!(real_literal("3.5e+05x").unwrap(), ("x", (real("3", "5", Some((false, "05"))), vec![])));
    assert_eq!(real_literal("2e3").unwrap(), ("", (real("2", "", Some((false, "3"))), vec![])));
    assert_eq!(real_literal("2e").unwrap(), ("e", (real("2", "", None), vec![])));
    assert_eq!(real_literal("2e+").unwrap(), ("e+", (real("2", "", None), vec![])));
    assert_eq!(real_literal("1.5.2").unwrap(), (".2", (real("1", "5", None), vec![])));
    assert_eq!(
        real_literal("123456789012345678901234567890.5").unwrap(),
        ("", (real("123456789012345678901234567890", "5", None), vec![]))
    );
    let error = syntax_error(0, Production::RealLiteral);
    assert_eq!(real_literal(".5"), Err(error));
    assert_eq!(real_literal("-1.5"), Err(error));
    assert_eq!(real_literal("e5"), Err(error));
}

#[test]
fn real_literal_agrees_with_integer_literal_on_digits() {
    for text in ["0", "7", "123", "000123", "18446744073709551615"] {
        let (rest_r, (real, _)) = real_literal(text).unwrap();
        let (rest_i, (integer, _)) = integer_literal(text).unwrap();
        assert_eq!(rest_r, "");
        assert_eq!(rest_i, "");
        assert!(real.fraction.is_empty());
        assert!(real.exponent.is_none());
        assert_eq!(real.integral.parse::<u64>().unwrap(), integer);
        assert_eq!(real.lexeme().parse::<f64>().unwrap(), integer as f64);
    }
}

#[test]
fn literal_alternatives() {
    assert_eq!(literal("TRUE").unwrap(), ("", (Literal::Logical(Logical::True), vec![])));
    assert_eq!(literal("UNKNOWN;").unwrap(), (";", (Literal::Logical(Logical::Unknown), vec![])));
    assert_eq!(literal("'s'").unwrap(), ("", (Literal::String("s".to_string()), vec![])));
    assert_eq!(
        literal("23").unwrap().1 .0,
        Literal::Real(Real { integral: "23".to_string(), fraction: String::new(), exponent: None })
    );
    assert_eq!(literal("TRUEX"), Err(syntax_error(0, Production::Literal)));
    assert_eq!(literal("x"), Err(syntax_error(0, Production::Literal)));
    assert_eq!(literal("%1010"), Err(unsupported(0, Construct::BinaryLiteral)));
}

#[test]
fn primary_reads_identifiers() {
    assert_eq!(primary("abc_1 + 2").unwrap(), (" + 2", (Primary::Identifier("abc_1".to_string()), vec![])));
    assert_eq!(primary("TRUEX").unwrap(), ("", (Primary::Identifier("TRUEX".to_string()), vec![])));
    assert_eq!(primary("ORDER").unwrap(), ("", (Primary::Identifier("ORDER".to_string()), vec![])));
    assert_eq!(primary("AND"), Err(syntax_error(0, Production::Primary)));
    assert_eq!(primary("NOT"), Err(syntax_error(0, Production::Primary)));
    assert_eq!(primary("_a"), Err(syntax_error(0, Production::Primary)));
    assert_eq!(primary(" -- c\n ?"), Err(syntax_error(7, Production::Primary)));
    assert_eq!(primary("%1"), Err(unsupported(0, Construct::BinaryLiteral)));
}

#[test]
fn simple_factor_unary_operators() {
    let with = |op: UnaryOp, operand: &str| SimpleFactor::PrimaryOrExpression {
        unary_op: Some(op),
        primary_or_expression: PrimaryOrExpression::Primary(Primary::Identifier(
            operand.to_string(),
        )),
    };
    assert_eq!(simple_factor("+x").unwrap(), ("", (with(UnaryOp::Plus, "x"), vec![])));
    assert_eq!(simple_factor("- x").unwrap(), ("", (with(UnaryOp::Minus, "x"), vec![])));
    assert_eq!(simple_factor("NOT x").unwrap(), ("", (with(UnaryOp::Not, "x"), vec![])));
    assert_eq!(simple_factor("NOTx").unwrap(), ("", (name("NOTx"), vec![])));
    assert_eq!(
        simple_factor("- (* m *) x").unwrap(),
        ("", (with(UnaryOp::Minus, "x"), vec![Remark::Embedded(" m ".to_string())]))
    );
}

#[test]
fn simple_factor_parentheses() {
    let inner: Expression = Expr::Unary(as_simple_expression(name("x")));
    assert_eq!(simple_factor("(x)").unwrap(), ("", (inner.into(), vec![])));
    let inner: Expression = Expr::Unary(as_simple_expression(name("x")));
    assert_eq!(simple_factor("( x )y").unwrap(), ("y", (inner.into(), vec![])));
    assert_eq!(simple_factor("(x"), Err(syntax_error(2, Production::SimpleFactor)));
    assert_eq!(simple_factor("(x y)"), Err(syntax_error(3, Production::SimpleFactor)));
    assert_eq!(simple_factor("()"), Err(syntax_error(1, Production::Primary)));
    assert_eq!(simple_factor(")"), Err(syntax_error(0, Production::Primary)));
}

#[test]
fn simple_factor_unsupported_constructs() {
    assert_eq!(simple_factor("[1, 2]"), Err(unsupported(0, Construct::AggregateInitializer)));
    assert_eq!(simple_factor("{1 < x < 2}"), Err(unsupported(0, Construct::Interval)));
    assert_eq!(simple_factor("QUERY(x <* y | TRUE)"), Err(unsupported(0, Construct::QueryExpression)));
    assert_eq!(simple_factor("point(1, 2)"), Err(unsupported(0, Construct::EntityConstructor)));
    assert_eq!(simple_factor("point (1)"), Err(unsupported(0, Construct::EntityConstructor)));
    assert_eq!(simple_factor("colour.red"), Err(unsupported(0, Construct::EnumerationReference)));
    assert_eq!(simple_factor(" - [1]"), Err(unsupported(3, Construct::AggregateInitializer)));
    assert_eq!(expression("1 + [2]"), Err(unsupported(4, Construct::AggregateInitializer)));
    assert_eq!(expression("(1 * %1)"), Err(unsupported(5, Construct::BinaryLiteral)));
    assert_eq!(expression("1 + ?").unwrap().0, " + ?");
}

#[test]
fn factor_power() {
    let parsed: Factor = Expr::Binary { op: PowerOp::Power, arg1: name("x"), arg2: number("2") };
    assert_eq!(factor("x ** 2").unwrap(), ("", (parsed, vec![])));
    assert_eq!(factor("x**2**3").unwrap().0, "**3");
    assert_eq!(factor("x * 2").unwrap(), (" * 2", (Expr::Unary(name("x")), vec![])));
}

#[test]
fn term_operators() {
    let cases = [
        ("x * y", MultiplicationLikeOp::Mul),
        ("x / y", MultiplicationLikeOp::RealDiv),
        ("x DIV y", MultiplicationLikeOp::IntegerDiv),
        ("x MOD y", MultiplicationLikeOp::Mod),
        ("x AND y", MultiplicationLikeOp::And),
        ("x || y", MultiplicationLikeOp::ComplexEntityInstanceConstruction),
    ];
    for (text, op) in cases {
        let parsed: Term =
            Expr::Binary { op, arg1: Expr::Unary(name("x")), arg2: Expr::Unary(name("y")) };
        assert_eq!(term(text).unwrap(), ("", (parsed, vec![])));
    }
    assert_eq!(term("x ANDy").unwrap().0, " ANDy");
    assert_eq!(term("x * y * z").unwrap().0, " * z");
}

#[test]
fn simple_expression_operators() {
    let cases = [
        ("x + y", AddLikeOp::Plus),
        ("x - y", AddLikeOp::Minus),
        ("x OR y", AddLikeOp::Or),
        ("x XOR y", AddLikeOp::Xor),
        ("x+y", AddLikeOp::Plus),
    ];
    for (text, op) in cases {
        let parsed: SimpleExpression =
            Expr::Binary { op, arg1: as_term(name("x")), arg2: as_term(name("y")) };
        assert_eq!(simple_expression(text).unwrap(), ("", (parsed, vec![])));
    }
    assert_eq!(simple_expression("x + y + z").unwrap().0, " + z");
    assert_eq!(
        simple_expression("x--y").unwrap(),
        ("--y", (as_simple_expression(name("x")), vec![]))
    );
}

#[test]
fn expression_operators() {
    let cases = [
        ("x = y", RelOpExtended::RelOp(RelOp::Equal)),
        ("x <> y", RelOpExtended::RelOp(RelOp::NotEqual)),
        ("x < y", RelOpExtended::RelOp(RelOp::LessThan)),
        ("x > y", RelOpExtended::RelOp(RelOp::GreaterThan)),
        ("x <= y", RelOpExtended::RelOp(RelOp::LessThanEqual)),
        ("x >= y", RelOpExtended::RelOp(RelOp::GreaterThanEqual)),
        ("x :=: y", RelOpExtended::RelOp(RelOp::InstanceEqual)),
        ("x :<>: y", RelOpExtended::RelOp(RelOp::InstanceNotEqual)),
        ("x IN y", RelOpExtended::In),
        ("x LIKE y", RelOpExtended::Like),
    ];
    for (text, op) in cases {
        let parsed: Expression = Expr::Binary {
            op,
            arg1: as_simple_expression(name("x")),
            arg2: as_simple_expression(name("y")),
        };
        assert_eq!(expression(text).unwrap(), ("", (parsed, vec![])));
    }
}

#[test]
fn tighter_operators_bind_first() {
    let product: Term = Expr::Binary {
        op: MultiplicationLikeOp::Mul,
        arg1: Expr::Unary(number("2")),
        arg2: Expr::Unary(number("3")),
    };
    let sum: SimpleExpression =
        Expr::Binary { op: AddLikeOp::Plus, arg1: as_term(number("1")), arg2: product };
    let parsed: Expression = Expr::Binary {
        op: RelOpExtended::RelOp(RelOp::LessThan),
        arg1: sum,
        arg2: as_simple_expression(name("x")),
    };
    assert_eq!(expression("1 + 2 * 3 < x").unwrap(), ("", (parsed, vec![])));
}

#[test]
fn unclosed_remark_is_no_remark() {
    assert_eq!(expression("(* open"), Err(syntax_error(1, Production::Primary)));
    assert_eq!(
        expression("1 (* open").unwrap(),
        (" (* open", (Expr::Unary(as_simple_expression(number("1"))), vec![]))
    );
}

#[test]
fn remarks_of_nested_expression() {
    let (rest, (_, remarks)) =
        simple_factor("-- one\n-(* two *)( (* three *) x (* four *)) (* five *)").unwrap();
    assert_eq!(rest, " (* five *)");
    assert_eq!(
        remarks,
        vec![
            Remark::Tail(" one".to_string()),
            Remark::Embedded(" two ".to_string()),
            Remark::Embedded(" three ".to_string()),
            Remark::Embedded(" four ".to_string()),
        ]
    );
}

#[test]
fn expressions_can_be_copied() {
    let (_, (e, remarks)) = expression("(* r *) -(1 + 'a') ** x").unwrap();
    assert_eq!(e.clone(), e);
    assert_eq!(remarks.clone(), remarks);
    let (_, (f, _)) = simple_factor("NOT (TRUE)").unwrap();
    assert_eq!(f.clone(), f);
    assert_eq!(espr::parser::expression::clone_expression(&e), e);
}
