use lscript::ast::Type;
use lscript::errors::InterpretErrors;
use lscript::host::{Event, FloatOp, FloatTask, Num};
use lscript::ops::{
    array_op, bool_mixed_op, bool_op, compile, compile_all, convert, eval_binop, finish_float,
    float_num_op, num_op, str_op, str_op_rev, Reduced,
};
use lscript::rules::{
    index_value, interpret_constant, kind_word, print_array, print_value, render, same_kind,
    string_chars, strip_line_end, to_str, values_equal,
};
use lscript::value::{MatchResult, RuntimeValue};

fn n(v: i64) -> RuntimeValue {
    RuntimeValue::Number(v)
}

fn s(v: &str) -> RuntimeValue {
    RuntimeValue::String(v.to_string())
}

fn f(v: &str) -> RuntimeValue {
    RuntimeValue::Float(v.to_string())
}

fn b(v: bool) -> RuntimeValue {
    RuntimeValue::Boolean(v)
}

fn arr(v: Vec<RuntimeValue>) -> RuntimeValue {
    RuntimeValue::Array(v)
}

fn value(r: Result<Reduced, InterpretErrors>) -> RuntimeValue {
    match r {
        Ok(Reduced::Value(v)) => v,
        other => panic!("no value: {:?}", other),
    }
}

fn unknown(op: &str) -> InterpretErrors {
    InterpretErrors::UnknownOperator { op: op.to_string() }
}

#[test]
fn integer_arithmetic() {
    assert_eq!(num_op("+", 2, 3), Ok(n(5)));
    assert_eq!(num_op("-", 2, 3), Ok(n(-1)));
    assert_eq!(num_op("*", 4, 3), Ok(n(12)));
    assert_eq!(num_op("/", 7, 2), Ok(n(3)));
    assert_eq!(num_op("/", -7, 2), Ok(n(-3)));
    assert_eq!(num_op("%", 7, 3), Ok(n(1)));
    assert_eq!(num_op("%", -7, 3), Ok(n(-1)));
}

#[test]
fn integer_arithmetic_wraps_round() {
    assert_eq!(num_op("+", i64::MAX, 1), Ok(n(i64::MIN)));
    assert_eq!(num_op("-", i64::MIN, 1), Ok(n(i64::MAX)));
    assert_eq!(num_op("*", i64::MAX, 2), Ok(n(-2)));
    assert_eq!(num_op("/", i64::MIN, -1), Ok(n(i64::MIN)));
    assert_eq!(num_op("%", i64::MIN, -1), Ok(n(0)));
}

#[test]
fn integer_division_by_zero() {
    assert_eq!(num_op("/", 1, 0), Err(InterpretErrors::DivisionByZero));
    assert_eq!(num_op("%", 1, 0), Err(InterpretErrors::ModuloByZero));
    assert_eq!(InterpretErrors::DivisionByZero.message(), "Division by zero");
    assert_eq!(InterpretErrors::ModuloByZero.message(), "Modulo by zero");
}

#[test]
fn integer_comparisons() {
    assert_eq!(num_op("==", 2, 2), Ok(b(true)));
    assert_eq!(num_op("!=", 2, 2), Ok(b(false)));
    assert_eq!(num_op("<", 1, 2), Ok(b(true)));
    assert_eq!(num_op(">", 1, 2), Ok(b(false)));
    assert_eq!(num_op("<=", 2, 2), Ok(b(true)));
    assert_eq!(num_op(">=", 1, 2), Ok(b(false)));
    assert_eq!(num_op("&&", 1, 0), Ok(b(false)));
    assert_eq!(num_op("&&", 1, -1), Ok(b(true)));
    assert_eq!(num_op("||", 0, 0), Ok(b(false)));
    assert_eq!(num_op("||", 0, 3), Ok(b(true)));
    assert_eq!(num_op("^", 1, 2), Err(unknown("^")));
}

#[test]
fn operations_on_doubles_go_to_the_host() {
    let ask = |op: FloatOp, l: Num, r: Num| {
        Ok(Reduced::Ask(FloatTask::Binary { op, left: l, right: r }))
    };
    let half = || Num::Float("0.5".to_string());
    assert_eq!(float_num_op("+", half(), Num::Int(2)), ask(FloatOp::Add, half(), Num::Int(2)));
    assert_eq!(float_num_op("-", Num::Int(2), half()), ask(FloatOp::Sub, Num::Int(2), half()));
    assert_eq!(float_num_op("*", half(), half()), ask(FloatOp::Mul, half(), half()));
    assert_eq!(float_num_op("/", half(), half()), ask(FloatOp::Div, half(), half()));
    assert_eq!(float_num_op("%", half(), half()), ask(FloatOp::Rem, half(), half()));
    assert_eq!(float_num_op("==", half(), half()), ask(FloatOp::Eq, half(), half()));
    assert_eq!(float_num_op("!=", half(), half()), ask(FloatOp::Ne, half(), half()));
    assert_eq!(float_num_op("<", half(), half()), ask(FloatOp::Lt, half(), half()));
    assert_eq!(float_num_op(">", half(), half()), ask(FloatOp::Gt, half(), half()));
    assert_eq!(float_num_op("<=", half(), half()), ask(FloatOp::Le, half(), half()));
    assert_eq!(float_num_op(">=", half(), half()), ask(FloatOp::Ge, half(), half()));
    assert_eq!(float_num_op("^", half(), half()), Err(unknown("^")));
}

#[test]
fn doubles_divided_by_zero() {
    let zero = || Num::Float("0".to_string());
    let minus_zero = || Num::Float("-0".to_string());
    let one = || Num::Float("1".to_string());
    assert_eq!(float_num_op("/", one(), zero()), Err(InterpretErrors::DivisionByZero));
    assert_eq!(float_num_op("/", one(), minus_zero()), Err(InterpretErrors::DivisionByZero));
    assert_eq!(float_num_op("/", one(), Num::Int(0)), Err(InterpretErrors::DivisionByZero));
    assert_eq!(float_num_op("%", one(), zero()), Err(InterpretErrors::ModuloByZero));
}

#[test]
fn doubles_as_truth_values() {
    let zero = || Num::Float("0".to_string());
    let one = || Num::Float("1.5".to_string());
    assert_eq!(value(float_num_op("&&", one(), zero())), b(false));
    assert_eq!(value(float_num_op("&&", one(), Num::Int(2))), b(true));
    assert_eq!(value(float_num_op("||", zero(), Num::Int(0))), b(false));
    assert_eq!(value(float_num_op("||", zero(), one())), b(true));
}

#[test]
fn truth_values() {
    assert_eq!(bool_op("==", true, true), Ok(b(true)));
    assert_eq!(bool_op("!=", true, true), Ok(b(false)));
    assert_eq!(bool_op("&&", true, false), Ok(b(false)));
    assert_eq!(bool_op("||", true, false), Ok(b(true)));
    assert_eq!(bool_op("+", true, false), Err(unknown("+")));
    assert_eq!(bool_mixed_op("&&", true, true), Ok(b(true)));
}

#[test]
fn strings_on_the_left() {
    assert_eq!(str_op("+", "a", &n(1)), Ok(s("a1")));
    assert_eq!(str_op("+", "a", &b(true)), Ok(s("atrue")));
    assert_eq!(str_op("+", "a", &f("2.5")), Ok(s("a2.5")));
    assert_eq!(str_op("+", "a", &s("b")), Ok(s("ab")));
    assert_eq!(str_op("==", "12", &n(12)), Ok(b(true)));
    assert_eq!(str_op("!=", "12", &n(12)), Ok(b(false)));
    assert_eq!(str_op("-", "a", &n(1)), Err(unknown("-")));
    assert_eq!(
        str_op("+", "a", &arr(vec![])),
        Err(InterpretErrors::UnsupportedConversion { target: Type::String })
    );
}

#[test]
fn strings_on_the_right() {
    assert_eq!(str_op_rev("+", &n(-5), "a"), Ok(s("-5a")));
    assert_eq!(str_op_rev("==", &b(false), "false"), Ok(b(true)));
    assert_eq!(str_op_rev("!=", &n(1), "2"), Ok(b(true)));
    assert_eq!(str_op_rev("*", &n(1), "2"), Err(unknown("*")));
}

#[test]
fn arrays() {
    assert_eq!(array_op("==", vec![n(1), s("a")], vec![n(1), s("a")]), Ok(b(true)));
    assert_eq!(array_op("==", vec![n(1)], vec![n(1), n(2)]), Ok(b(false)));
    assert_eq!(array_op("!=", vec![n(1)], vec![n(2)]), Ok(b(true)));
    assert_eq!(array_op("+", vec![n(1)], vec![n(2), n(3)]), Ok(arr(vec![n(1), n(2), n(3)])));
    assert_eq!(
        array_op("-", vec![n(1), n(2), n(3), n(2)], vec![n(2), n(9)]),
        Ok(arr(vec![n(1), n(3)]))
    );
    assert_eq!(array_op("*", vec![], vec![]), Err(unknown("*")));
}

#[test]
fn binary_operator_picks_the_rule_by_kind() {
    assert_eq!(value(eval_binop("+", n(2), n(3))), n(5));
    assert_eq!(value(eval_binop("&&", b(true), n(0))), b(false));
    assert_eq!(value(eval_binop("||", n(2), b(false))), b(true));
    assert_eq!(value(eval_binop("+", s("hi "), n(42))), s("hi 42"));
    assert_eq!(value(eval_binop("+", n(42), s(" hi"))), s("42 hi"));
    assert_eq!(value(eval_binop("+", arr(vec![n(1)]), arr(vec![n(2)]))), arr(vec![n(1), n(2)]));
    assert_eq!(
        eval_binop("+", f("1.5"), n(2)),
        Ok(Reduced::Ask(FloatTask::Binary {
            op: FloatOp::Add,
            left: Num::Float("1.5".to_string()),
            right: Num::Int(2),
        }))
    );
    assert_eq!(
        eval_binop("<", n(2), f("1.5")),
        Ok(Reduced::Ask(FloatTask::Binary {
            op: FloatOp::Lt,
            left: Num::Int(2),
            right: Num::Float("1.5".to_string()),
        }))
    );
}

#[test]
fn binary_operator_on_kinds_without_one() {
    assert_eq!(eval_binop("+", n(1), arr(vec![])), Err(InterpretErrors::BinaryMismatch));
    assert_eq!(eval_binop("+", b(true), f("1")), Err(InterpretErrors::BinaryMismatch));
    assert_eq!(
        eval_binop("==", RuntimeValue::Void, RuntimeValue::Void),
        Err(InterpretErrors::BinaryMismatch)
    );
    assert_eq!(
        InterpretErrors::BinaryMismatch.message(),
        "Type mismatch in binary operation"
    );
}

#[test]
fn conversions_to_int() {
    assert_eq!(value(convert(n(3), Type::Int)), n(3));
    assert_eq!(value(convert(b(true), Type::Int)), n(1));
    assert_eq!(value(convert(b(false), Type::Int)), n(0));
    assert_eq!(value(convert(s("42"), Type::Int)), n(42));
    assert_eq!(value(convert(s("-42"), Type::Int)), n(-42));
    assert_eq!(value(convert(s("+7"), Type::Int)), n(7));
    assert_eq!(
        convert(s("4 2"), Type::Int),
        Err(InterpretErrors::UnsupportedConversion { target: Type::Int })
    );
    assert_eq!(
        convert(s(""), Type::Int),
        Err(InterpretErrors::UnsupportedConversion { target: Type::Int })
    );
    assert_eq!(convert(f("2.7"), Type::Int), Ok(Reduced::Ask(FloatTask::ToInt("2.7".to_string()))));
    assert_eq!(
        convert(arr(vec![]), Type::Int),
        Err(InterpretErrors::UnsupportedConversion { target: Type::Int })
    );
}

#[test]
fn conversions_to_float() {
    assert_eq!(convert(n(3), Type::Float), Ok(Reduced::Ask(FloatTask::FromInt(3))));
    assert_eq!(value(convert(f("2.5"), Type::Float)), f("2.5"));
    assert_eq!(value(convert(b(true), Type::Float)), f("1"));
    assert_eq!(value(convert(b(false), Type::Float)), f("0"));
    assert_eq!(
        convert(s("1e3"), Type::Float),
        Ok(Reduced::Ask(FloatTask::Parse("1e3".to_string())))
    );
}

#[test]
fn conversions_to_bool() {
    assert_eq!(value(convert(n(0), Type::Bool)), b(false));
    assert_eq!(value(convert(n(-3), Type::Bool)), b(true));
    assert_eq!(value(convert(f("0"), Type::Bool)), b(false));
    assert_eq!(value(convert(f("0.1"), Type::Bool)), b(true));
    assert_eq!(value(convert(b(true), Type::Bool)), b(true));
    assert_eq!(value(convert(s(""), Type::Bool)), b(false));
    assert_eq!(value(convert(s("false"), Type::Bool)), b(false));
    assert_eq!(value(convert(s("0"), Type::Bool)), b(false));
    assert_eq!(value(convert(s("no"), Type::Bool)), b(true));
}

#[test]
fn conversions_to_string_and_array() {
    assert_eq!(value(convert(n(42), Type::String)), s("42"));
    assert_eq!(value(convert(f("2.5"), Type::String)), s("2.5"));
    assert_eq!(value(convert(b(false), Type::String)), s("false"));
    assert_eq!(value(convert(s("x"), Type::String)), s("x"));
    assert_eq!(value(convert(arr(vec![n(1), s("a")]), Type::String)), s("[1, \"a\"]"));
    assert_eq!(value(convert(arr(vec![n(1)]), Type::Array)), arr(vec![n(1)]));
    assert_eq!(value(convert(n(1), Type::Array)), arr(vec![n(1)]));
    assert_eq!(
        convert(n(1), Type::Void),
        Err(InterpretErrors::UnsupportedConversion { target: Type::Void })
    );
}

#[test]
fn answers_of_the_host() {
    let add = FloatTask::Binary { op: FloatOp::Add, left: Num::Int(1), right: Num::Int(2) };
    let less = FloatTask::Binary { op: FloatOp::Lt, left: Num::Int(1), right: Num::Int(2) };
    assert_eq!(finish_float(&add, Event::Float("3".to_string())), Ok(f("3")));
    assert_eq!(finish_float(&add, Event::Boolean(true)), Err(InterpretErrors::UnexpectedReply));
    assert_eq!(finish_float(&less, Event::Boolean(true)), Ok(b(true)));
    assert_eq!(
        finish_float(&less, Event::Float("3".to_string())),
        Err(InterpretErrors::UnexpectedReply)
    );
    assert_eq!(
        finish_float(&FloatTask::Literal("1.50".to_string()), Event::Float("1.5".to_string())),
        Ok(f("1.5"))
    );
    assert_eq!(
        finish_float(&FloatTask::ToInt("2.7".to_string()), Event::Number(2)),
        Ok(n(2))
    );
    assert_eq!(
        finish_float(&FloatTask::FromInt(2), Event::Float("2".to_string())),
        Ok(f("2"))
    );
    assert_eq!(
        finish_float(&FloatTask::Parse("x".to_string()), Event::Failed("bad".to_string())),
        Err(InterpretErrors::UnsupportedConversion { target: Type::Float })
    );
    assert_eq!(
        finish_float(&FloatTask::Parse("x".to_string()), Event::Resume),
        Err(InterpretErrors::UnexpectedReply)
    );
}

#[test]
fn textual_forms() {
    assert_eq!(to_str(&n(-12)), Ok("-12".to_string()));
    assert_eq!(to_str(&n(0)), Ok("0".to_string()));
    assert_eq!(to_str(&n(i64::MIN)), Ok("-9223372036854775808".to_string()));
    assert_eq!(to_str(&f("1.5")), Ok("1.5".to_string()));
    assert_eq!(to_str(&b(true)), Ok("true".to_string()));
    assert_eq!(to_str(&s("x")), Ok("x".to_string()));
    assert_eq!(
        to_str(&RuntimeValue::Void),
        Err(InterpretErrors::UnsupportedConversion { target: Type::String })
    );
}

#[test]
fn rendering() {
    let m = MatchResult { text: "ab".to_string(), start: 1, end: 3 };
    assert_eq!(render(&n(5)), "5");
    assert_eq!(render(&s("hi")), "hi");
    assert_eq!(print_value(&s("hi")), "\"hi\"");
    assert_eq!(render(&RuntimeValue::Regex("a+".to_string())), "a+");
    assert_eq!(render(&RuntimeValue::Void), "()");
    assert_eq!(render(&arr(vec![])), "[]");
    assert_eq!(render(&arr(vec![n(1), s("a"), arr(vec![b(true)])])), "[1, \"a\", [true]]");
    assert_eq!(print_array(&vec![n(1), n(2), n(3), n(4)]), "[1, 2, 3, 4]");
    assert_eq!(
        render(&RuntimeValue::MatchValue(Box::new(m.clone()))),
        "Match(text: \"ab\", start: 1, end: 3)"
    );
    assert_eq!(
        render(&RuntimeValue::MatchArray(vec![m.clone(), m.clone()])),
        "MatchArray[Match(text: \"ab\", start: 1, end: 3), Match(text: \"ab\", start: 1, end: 3)]"
    );
    assert_eq!(render(&RuntimeValue::ReturnValue(Box::new(s("x")))), "Return(\"x\")");
    assert_eq!(render(&RuntimeValue::ConstValue(Box::new(n(7)))), "Const(7)");
}

#[test]
fn kind_names() {
    assert_eq!(kind_word(&n(1)), "int");
    assert_eq!(kind_word(&f("1")), "float");
    assert_eq!(kind_word(&b(true)), "bool");
    assert_eq!(kind_word(&s("")), "string");
    assert_eq!(kind_word(&RuntimeValue::Regex("a".to_string())), "regex");
    assert_eq!(kind_word(&arr(vec![])), "array");
    assert_eq!(kind_word(&RuntimeValue::Void), "void");
    assert_eq!(kind_word(&RuntimeValue::ReturnValue(Box::new(n(1)))), "ReturnValue");
    assert_eq!(kind_word(&RuntimeValue::ConstValue(Box::new(n(1)))), "const");
    let m = MatchResult { text: "a".to_string(), start: 0, end: 1 };
    assert_eq!(kind_word(&RuntimeValue::MatchValue(Box::new(m.clone()))), "MatchValue");
    assert_eq!(kind_word(&RuntimeValue::MatchArray(vec![m])), "MatchArray");
}

#[test]
fn equality_of_values() {
    assert!(values_equal(&n(1), &n(1)));
    assert!(!values_equal(&n(1), &f("1")));
    assert!(values_equal(&f("0"), &f("-0")));
    assert!(!values_equal(&f("NaN"), &f("NaN")));
    assert!(values_equal(&arr(vec![n(1), arr(vec![s("a")])]), &arr(vec![n(1), arr(vec![s("a")])])));
    assert!(!values_equal(&arr(vec![n(1)]), &arr(vec![n(1), n(1)])));
    assert!(values_equal(&RuntimeValue::Void, &RuntimeValue::Void));
}

#[test]
fn indexing() {
    let a = arr(vec![n(10), n(20)]);
    assert_eq!(index_value(&a, &n(0)), Ok(n(10)));
    assert_eq!(index_value(&a, &n(1)), Ok(n(20)));
    assert_eq!(
        index_value(&a, &n(2)),
        Err(InterpretErrors::IndexOutOfBounds { index: 2, len: 2 })
    );
    assert_eq!(
        index_value(&a, &n(-1)),
        Err(InterpretErrors::IndexOutOfBounds { index: -1, len: 2 })
    );
    assert_eq!(index_value(&a, &s("0")), Err(InterpretErrors::NotIndexable));
    assert_eq!(index_value(&s("ab"), &n(0)), Err(InterpretErrors::NotIndexable));
    assert_eq!(
        InterpretErrors::IndexOutOfBounds { index: 5, len: 2 }.message(),
        "Index 5 out of bounds for array of length 2"
    );
}

#[test]
fn kinds_on_assignment() {
    assert!(same_kind(&RuntimeValue::Void, &s("x")));
    assert!(same_kind(&n(1), &n(2)));
    assert!(!same_kind(&n(1), &s("x")));
    assert!(!same_kind(&n(1), &f("1")));
    assert!(same_kind(&arr(vec![]), &arr(vec![n(1)])));
    assert!(!same_kind(&RuntimeValue::ConstValue(Box::new(n(1))), &n(1)));
    assert!(!same_kind(
        &RuntimeValue::ReturnValue(Box::new(n(1))),
        &RuntimeValue::ReturnValue(Box::new(n(2)))
    ));
    assert!(!same_kind(&RuntimeValue::ReturnValue(Box::new(n(1))), &n(2)));
}

#[test]
fn small_helpers() {
    assert_eq!(string_chars("h\u{e9}"), vec![s("h"), s("\u{e9}")]);
    assert_eq!(strip_line_end("abc\n"), "abc");
    assert_eq!(strip_line_end("abc\r\n"), "abc");
    assert_eq!(strip_line_end("abc"), "abc");
    assert_eq!(strip_line_end(" a \n\n"), " a \n");
    assert_eq!(interpret_constant(RuntimeValue::ConstValue(Box::new(n(1)))), n(1));
    assert_eq!(interpret_constant(n(2)), n(2));
}

#[test]
fn first_match_of_a_pattern() {
    let found = compile(&s("a1b22"), &RuntimeValue::Regex("[0-9]+".to_string()));
    assert_eq!(
        found,
        Ok(RuntimeValue::MatchValue(Box::new(MatchResult {
            text: "1".to_string(),
            start: 1,
            end: 2,
        })))
    );
    assert_eq!(
        compile(&s("abc"), &RuntimeValue::Regex("[0-9]+".to_string())),
        Ok(RuntimeValue::Void)
    );
    assert_eq!(compile(&n(1), &RuntimeValue::Regex("a".to_string())), Err(InterpretErrors::CompileMismatch));
    assert_eq!(compile(&s("a"), &s("a")), Err(InterpretErrors::CompileMismatch));
}

#[test]
fn every_match_of_a_pattern() {
    let found = compile_all(&s("a1b22"), &RuntimeValue::Regex("[0-9]+".to_string()));
    assert_eq!(
        found,
        Ok(arr(vec![
            RuntimeValue::MatchValue(Box::new(MatchResult {
                text: "1".to_string(),
                start: 1,
                end: 2,
            })),
            RuntimeValue::MatchValue(Box::new(MatchResult {
                text: "22".to_string(),
                start: 3,
                end: 5,
            })),
        ]))
    );
    assert_eq!(
        compile_all(&s("abc"), &RuntimeValue::Regex("[0-9]+".to_string())),
        Ok(arr(vec![]))
    );
}

#[test]
fn pattern_that_does_not_compile() {
    match compile(&s("abc"), &RuntimeValue::Regex("(".to_string())) {
        Err(InterpretErrors::InvalidPattern { message }) => assert!(!message.is_empty()),
        other => panic!("{:?}", other),
    }
    match compile_all(&s("abc"), &RuntimeValue::Regex("[".to_string())) {
        Err(InterpretErrors::InvalidPattern { message }) => {
            assert!(InterpretErrors::InvalidPattern { message: message.clone() }
                .message()
                .starts_with("Invalid regex pattern: "))
        }
        other => panic!("{:?}", other),
    }
}

#[test]
fn failure_messages() {
    let name = || "x".to_string();
    assert_eq!(InterpretErrors::UndefinedVariable { name: name() }.message(), "Undefined variable: x");
    assert_eq!(InterpretErrors::UndefinedFunction { name: name() }.message(), "Undefined function: x");
    assert_eq!(
        InterpretErrors::ArityMismatch { name: name(), expected: 2, got: 3 }.message(),
        "Function x expects 2 arguments, got 3"
    );
    assert_eq!(InterpretErrors::AssignMismatch { name: name() }.message(), "Type mismatch for variable x");
    assert_eq!(InterpretErrors::ConstViolation { name: name() }.message(), "Cannot reassign constant x");
    assert_eq!(InterpretErrors::Redeclaration { name: name() }.message(), "Variable x is already declared");
    assert_eq!(
        InterpretErrors::UnsupportedConversion { target: Type::Float }.message(),
        "Cannot convert value to float"
    );
    assert_eq!(
        InterpretErrors::UnsupportedMethod { method: "pop".to_string() }.message(),
        "Method pop not supported for this type"
    );
    assert_eq!(
        InterpretErrors::ImportFailed { path: "a.l".to_string(), message: "gone".to_string() }.message(),
        "Cannot import a.l: gone"
    );
}
