use angular_phases::ir::{AngularExpression, LiteralValue};
use angular_phases::pure_function_extraction::generate_angular_expression_key;

fn s(x: &str) -> String {
    x.to_string()
}

fn lit(v: LiteralValue) -> AngularExpression {
    AngularExpression::LiteralPrimitive(v)
}

fn read(name: &str) -> AngularExpression {
    AngularExpression::PropertyRead { receiver: Box::new(AngularExpression::ImplicitReceiver), name: s(name) }
}

#[test]
fn literal_keys_are_their_source_text() {
    assert_eq!(generate_angular_expression_key(&lit(LiteralValue::String(s("hi")))), "\"hi\"");
    assert_eq!(generate_angular_expression_key(&lit(LiteralValue::Number(0))), "0");
    assert_eq!(generate_angular_expression_key(&lit(LiteralValue::Number(1234))), "1234");
    assert_eq!(generate_angular_expression_key(&lit(LiteralValue::Number(-56))), "-56");
    assert_eq!(generate_angular_expression_key(&lit(LiteralValue::Number(i64::MIN))), "-9223372036854775808");
    assert_eq!(generate_angular_expression_key(&lit(LiteralValue::Boolean(true))), "true");
    assert_eq!(generate_angular_expression_key(&lit(LiteralValue::Boolean(false))), "false");
    assert_eq!(generate_angular_expression_key(&lit(LiteralValue::Null)), "null");
    assert_eq!(generate_angular_expression_key(&lit(LiteralValue::Undefined)), "undefined");
}

#[test]
fn reads_from_the_component_and_nested_reads() {
    assert_eq!(generate_angular_expression_key(&AngularExpression::ImplicitReceiver), "implicit");
    assert_eq!(generate_angular_expression_key(&read("user")), "read(user)");
    let nested = AngularExpression::PropertyRead { receiver: Box::new(read("user")), name: s("name") };
    assert_eq!(generate_angular_expression_key(&nested), "prop(read(user),name)");
}

#[test]
fn interpolation_key_lists_strings_and_expressions() {
    let e = AngularExpression::Interpolation {
        strings: vec![s("a"), s("b"), s("")],
        expressions: vec![read("x"), lit(LiteralValue::Number(2))],
    };
    assert_eq!(generate_angular_expression_key(&e), "interp([\"a\",\"b\",\"\"],[read(x),2])");
    let empty = AngularExpression::Interpolation { strings: vec![], expressions: vec![] };
    assert_eq!(generate_angular_expression_key(&empty), "interp([],[])");
}
