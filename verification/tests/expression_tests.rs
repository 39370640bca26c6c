use comsrv::combase::expression::{
    parse_expression, prepare_expression, replace_all, substitute_variables, BinaryOp, Expression,
};
use comsrv::error::ComSrvError;

fn show(e: &Expression) -> String {
    match e {
        Expression::Number(t) => t.clone(),
        Expression::Boolean(b) => b.to_string(),
        Expression::Negate(x) => format!("(-{})", show(x)),
        Expression::Not(x) => format!("(!{})", show(x)),
        Expression::Binary(op, l, r) => {
            let o = match op {
                BinaryOp::Or => "|",
                BinaryOp::And => "&",
                BinaryOp::Ge => ">=",
                BinaryOp::Le => "<=",
                BinaryOp::Eq => "==",
                BinaryOp::Ne => "!=",
                BinaryOp::Gt => ">",
                BinaryOp::Lt => "<",
                BinaryOp::Add => "+",
                BinaryOp::Sub => "-",
                BinaryOp::Mul => "*",
                BinaryOp::Div => "/",
            };
            format!("({} {} {})", show(l), o, show(r))
        }
    }
}

fn parsed(s: &str) -> String {
    show(&parse_expression(s).unwrap())
}

fn error_of(s: &str) -> String {
    match parse_expression(s) {
        Err(ComSrvError::ConfigError(m)) => m,
        _ => panic!("expected a configuration error"),
    }
}

#[test]
fn expression_precedence() {
    assert_eq!(parsed(" 1 + 2 * 3 "), "(1 + (2 * 3))");
    assert_eq!(parsed("1 - 2 - 3"), "((1 - 2) - 3)");
    assert_eq!(parsed("(1 + 2) * 3"), "((1 + 2) * 3)");
    assert_eq!(parsed("1 + 2 > 2 & 3 <= 4 | !false"), "((((1 + 2) > 2) & (3 <= 4)) | (!false))");
    assert_eq!(parsed("-2.5 != +1"), "((-2.5) != 1)");
    assert_eq!(parsed("1 == 1"), "(1 == 1)");
    assert_eq!(parsed(".5"), ".5");
}

#[test]
fn expression_trailing_text_is_not_read() {
    assert_eq!(parsed("1)"), "1");
}

#[test]
fn expression_errors() {
    assert_eq!(error_of(""), "Unexpected end of expression");
    assert_eq!(error_of("1 +"), "Unexpected end of expression");
    assert_eq!(error_of("(1 + 2"), "Missing closing parenthesis");
    assert_eq!(error_of("x"), "Expected number or boolean");
    assert_eq!(error_of("1.2.3"), "Invalid number: 1.2.3");
    assert_eq!(error_of("."), "Invalid number: .");
}

#[test]
fn expression_preparation_and_substitution() {
    assert_eq!(prepare_expression("a AND b OR NOT c"), "a & b | ! c");
    assert_eq!(replace_all("abc", "", "-"), "-a-b-c-");
    assert_eq!(replace_all("aaa", "aa", "b"), "ba");
    let vars = vec![("t".to_string(), "1".to_string()), ("temp".to_string(), "25.5".to_string())];
    assert_eq!(substitute_variables("temp + t", &vars), "25.5 + 1");
}
