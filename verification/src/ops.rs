//! Binary operators and conversions. Whatever involves a double is not
//! computed here: the rule names the work, and the host does it.

use crate::ast::Type;
use crate::errors::{ErrorView, InterpretErrors};
use crate::host::{Event, EventView, FloatOp, FloatTask, FloatTaskView, Num, NumView};
use crate::pattern::{
    every_match, find_every, find_first, found_view, founds_view, leftmost_match, pattern_error,
};
use crate::rules::{
    has_same, is_zero_text, line_text, list_contains, lists_equal, render, same_values, text_of,
    to_str, zero_text,
};
use crate::text::{int_of_text, join, parse_int, text_is};
use crate::value::{
    lemma_values_none, lemma_values_push, lemma_values_view, values_view, MatchResult, MatchView,
    RuntimeValue, Value,
};
use vstd::prelude::*;

verus! {

/// What a rule gives: a value, or work on doubles whose answer becomes the
/// value.
#[derive(Debug, PartialEq)]
pub enum Reduced {
    Value(RuntimeValue),
    Ask(FloatTask),
}

/// What a rule gives, as contracts see it.
pub ghost enum ReducedView {
    Value(Value),
    Ask(FloatTaskView),
}

impl View for Reduced {
    type V = ReducedView;

    open spec fn view(&self) -> ReducedView {
        match self {
            Reduced::Value(v) => ReducedView::Value(v@),
            Reduced::Ask(t) => ReducedView::Ask(t@),
        }
    }
}

/// What a rule that may fail gives, as contracts see it.
pub open spec fn reduced_view(r: Result<Reduced, InterpretErrors>) -> Result<
    ReducedView,
    ErrorView,
> {
    match r {
        Ok(x) => Ok(x@),
        Err(e) => Err(e@),
    }
}

/// What a rule that gives a value or fails gives, as contracts see it.
pub open spec fn value_view(r: Result<RuntimeValue, InterpretErrors>) -> Result<Value, ErrorView> {
    match r {
        Ok(x) => Ok(x@),
        Err(e) => Err(e@),
    }
}

/// The value as a result that needs no work of the host.
pub open spec fn ready(r: Result<Value, ErrorView>) -> Result<ReducedView, ErrorView> {
    match r {
        Ok(v) => Ok(ReducedView::Value(v)),
        Err(e) => Err(e),
    }
}

/// The quotient of two integers, cut toward zero. The one quotient that is
/// out of range, of the least integer by -1, is the least integer.
pub open spec fn quotient(l: i64, r: i64) -> i64 {
    match l.checked_div(r) {
        Some(q) => q,
        None => l,
    }
}

/// The remainder of two integers, with the sign of the first.
pub open spec fn remainder(l: i64, r: i64) -> i64 {
    match l.checked_rem(r) {
        Some(q) => q,
        None => 0,
    }
}

/// An operator on two integers. Sums, differences and products wrap round
/// at the ends of the 64-bit range.
pub open spec fn int_op(op: Seq<char>, l: i64, r: i64) -> Result<Value, ErrorView> {
    if op == "+"@ {
        Ok(Value::Number(l.wrapping_add(r)))
    } else if op == "-"@ {
        Ok(Value::Number(l.wrapping_sub(r)))
    } else if op == "*"@ {
        Ok(Value::Number(l.wrapping_mul(r)))
    } else if op == "/"@ {
        if r == 0 {
            Err(ErrorView::DivisionByZero)
        } else {
            Ok(Value::Number(quotient(l, r)))
        }
    } else if op == "%"@ {
        if r == 0 {
            Err(ErrorView::ModuloByZero)
        } else {
            Ok(Value::Number(remainder(l, r)))
        }
    } else if op == "=="@ {
        Ok(Value::Boolean(l == r))
    } else if op == "!="@ {
        Ok(Value::Boolean(l != r))
    } else if op == "<"@ {
        Ok(Value::Boolean(l < r))
    } else if op == ">"@ {
        Ok(Value::Boolean(l > r))
    } else if op == "<="@ {
        Ok(Value::Boolean(l <= r))
    } else if op == ">="@ {
        Ok(Value::Boolean(l >= r))
    } else if op == "&&"@ {
        Ok(Value::Boolean(l != 0 && r != 0))
    } else if op == "||"@ {
        Ok(Value::Boolean(l != 0 || r != 0))
    } else {
        Err(ErrorView::UnknownOperator { op })
    }
}

/// An operator on two integers.
pub fn num_op(op: &str, l: i64, r: i64) -> (res: Result<RuntimeValue, InterpretErrors>)
    ensures
        value_view(res) == int_op(op@, l, r),
{
    if text_is(op, "+") {
        Ok(RuntimeValue::number(l.wrapping_add(r)))
    } else if text_is(op, "-") {
        Ok(RuntimeValue::number(l.wrapping_sub(r)))
    } else if text_is(op, "*") {
        Ok(RuntimeValue::number(l.wrapping_mul(r)))
    } else if text_is(op, "/") {
        if r == 0 {
            Err(InterpretErrors::division_by_zero())
        } else {
            match l.checked_div(r) {
                Some(q) => Ok(RuntimeValue::number(q)),
                None => Ok(RuntimeValue::number(l)),
            }
        }
    } else if text_is(op, "%") {
        if r == 0 {
            Err(InterpretErrors::modulo_by_zero())
        } else {
            match l.checked_rem(r) {
                Some(q) => Ok(RuntimeValue::number(q)),
                None => Ok(RuntimeValue::number(0)),
            }
        }
    } else if text_is(op, "==") {
        Ok(RuntimeValue::boolean(l == r))
    } else if text_is(op, "!=") {
        Ok(RuntimeValue::boolean(l != r))
    } else if text_is(op, "<") {
        Ok(RuntimeValue::boolean(l < r))
    } else if text_is(op, ">") {
        Ok(RuntimeValue::boolean(l > r))
    } else if text_is(op, "<=") {
        Ok(RuntimeValue::boolean(l <= r))
    } else if text_is(op, ">=") {
        Ok(RuntimeValue::boolean(l >= r))
    } else if text_is(op, "&&") {
        Ok(RuntimeValue::boolean(l != 0 && r != 0))
    } else if text_is(op, "||") {
        Ok(RuntimeValue::boolean(l != 0 || r != 0))
    } else {
        Err(InterpretErrors::unknown_operator(op.to_owned()))
    }
}

/// Whether a number is zero.
pub open spec fn is_zero(n: NumView) -> bool {
    match n {
        NumView::Int(i) => i == 0,
        NumView::Float(t) => is_zero_text(t),
    }
}

/// Whether a number is zero.
pub fn zero(n: &Num) -> (r: bool)
    ensures
        r == is_zero(n@),
{
    match n {
        Num::Int(i) => *i == 0,
        Num::Float(t) => zero_text(t.as_str()),
    }
}

/// The work that an arithmetic operator or a comparison asks of the host.
pub open spec fn ask(op: FloatOp, left: NumView, right: NumView) -> Result<
    ReducedView,
    ErrorView,
> {
    Ok(ReducedView::Ask(FloatTaskView::Binary { op, left, right }))
}

/// An operator on two numbers of which at least one is a double. The
/// integer counts as the double nearest to it, and the result of arithmetic
/// is a double. Division and remainder by zero fail. `&&` and `||` take
/// every number but zero as true.
pub open spec fn float_op(op: Seq<char>, left: NumView, right: NumView) -> Result<
    ReducedView,
    ErrorView,
> {
    if op == "+"@ {
        ask(FloatOp::Add, left, right)
    } else if op == "-"@ {
        ask(FloatOp::Sub, left, right)
    } else if op == "*"@ {
        ask(FloatOp::Mul, left, right)
    } else if op == "/"@ {
        if is_zero(right) {
            Err(ErrorView::DivisionByZero)
        } else {
            ask(FloatOp::Div, left, right)
        }
    } else if op == "%"@ {
        if is_zero(right) {
            Err(ErrorView::ModuloByZero)
        } else {
            ask(FloatOp::Rem, left, right)
        }
    } else if op == "=="@ {
        ask(FloatOp::Eq, left, right)
    } else if op == "!="@ {
        ask(FloatOp::Ne, left, right)
    } else if op == "<"@ {
        ask(FloatOp::Lt, left, right)
    } else if op == ">"@ {
        ask(FloatOp::Gt, left, right)
    } else if op == "<="@ {
        ask(FloatOp::Le, left, right)
    } else if op == ">="@ {
        ask(FloatOp::Ge, left, right)
    } else if op == "&&"@ {
        Ok(ReducedView::Value(Value::Boolean(!is_zero(left) && !is_zero(right))))
    } else if op == "||"@ {
        Ok(ReducedView::Value(Value::Boolean(!is_zero(left) || !is_zero(right))))
    } else {
        Err(ErrorView::UnknownOperator { op })
    }
}

/// The request for an operation on doubles.
fn request(op: FloatOp, left: Num, right: Num) -> (res: Result<Reduced, InterpretErrors>)
    ensures
        reduced_view(res) == ask(op, left@, right@),
{
    Ok(Reduced::Ask(FloatTask::binary(op, left, right)))
}

/// A truth value as the result of a rule.
fn truth(b: bool) -> (res: Result<Reduced, InterpretErrors>)
    ensures
        reduced_view(res) == Ok::<ReducedView, ErrorView>(ReducedView::Value(Value::Boolean(b))),
{
    Ok(Reduced::Value(RuntimeValue::boolean(b)))
}

/// An operator on two numbers of which at least one is a double.
pub fn float_num_op(op: &str, left: Num, right: Num) -> (res: Result<Reduced, InterpretErrors>)
    ensures
        reduced_view(res) == float_op(op@, left@, right@),
{
    if text_is(op, "+") {
        request(FloatOp::Add, left, right)
    } else if text_is(op, "-") {
        request(FloatOp::Sub, left, right)
    } else if text_is(op, "*") {
        request(FloatOp::Mul, left, right)
    } else if text_is(op, "/") {
        if zero(&right) {
            Err(InterpretErrors::division_by_zero())
        } else {
            request(FloatOp::Div, left, right)
        }
    } else if text_is(op, "%") {
        if zero(&right) {
            Err(InterpretErrors::modulo_by_zero())
        } else {
            request(FloatOp::Rem, left, right)
        }
    } else if text_is(op, "==") {
        request(FloatOp::Eq, left, right)
    } else if text_is(op, "!=") {
        request(FloatOp::Ne, left, right)
    } else if text_is(op, "<") {
        request(FloatOp::Lt, left, right)
    } else if text_is(op, ">") {
        request(FloatOp::Gt, left, right)
    } else if text_is(op, "<=") {
        request(FloatOp::Le, left, right)
    } else if text_is(op, ">=") {
        request(FloatOp::Ge, left, right)
    } else if text_is(op, "&&") {
        truth(!zero(&left) && !zero(&right))
    } else if text_is(op, "||") {
        truth(!zero(&left) || !zero(&right))
    } else {
        Err(InterpretErrors::unknown_operator(op.to_owned()))
    }
}

/// An operator on two truth values.
pub open spec fn truth_op(op: Seq<char>, l: bool, r: bool) -> Result<Value, ErrorView> {
    if op == "=="@ {
        Ok(Value::Boolean(l == r))
    } else if op == "!="@ {
        Ok(Value::Boolean(l != r))
    } else if op == "&&"@ {
        Ok(Value::Boolean(l && r))
    } else if op == "||"@ {
        Ok(Value::Boolean(l || r))
    } else {
        Err(ErrorView::UnknownOperator { op })
    }
}

/// An operator on two truth values.
pub fn bool_op(op: &str, l: bool, r: bool) -> (res: Result<RuntimeValue, InterpretErrors>)
    ensures
        value_view(res) == truth_op(op@, l, r),
{
    if text_is(op, "==") {
        Ok(RuntimeValue::boolean(l == r))
    } else if text_is(op, "!=") {
        Ok(RuntimeValue::boolean(l != r))
    } else if text_is(op, "&&") {
        Ok(RuntimeValue::boolean(l && r))
    } else if text_is(op, "||") {
        Ok(RuntimeValue::boolean(l || r))
    } else {
        Err(InterpretErrors::unknown_operator(op.to_owned()))
    }
}

/// An operator on a truth value and an integer, which counts as true
/// unless it is zero.
pub fn bool_mixed_op(op: &str, l: bool, r: bool) -> (res: Result<RuntimeValue, InterpretErrors>)
    ensures
        value_view(res) == truth_op(op@, l, r),
{
    bool_op(op, l, r)
}

/// An operator on a string and, to its right, any value: `+` joins the
/// string and the textual form of the value, `==` and `!=` compare them.
pub open spec fn text_op(op: Seq<char>, l: Seq<char>, right: Value) -> Result<Value, ErrorView> {
    if op == "+"@ || op == "=="@ || op == "!="@ {
        match text_of(right) {
            Some(t) => if op == "+"@ {
                Ok(Value::String(l + t))
            } else if op == "=="@ {
                Ok(Value::Boolean(l == t))
            } else {
                Ok(Value::Boolean(l != t))
            },
            None => Err(ErrorView::UnsupportedConversion { target: Type::String }),
        }
    } else {
        Err(ErrorView::UnknownOperator { op })
    }
}

/// An operator on a string and, to its right, any value.
pub fn str_op(op: &str, l: &str, right: &RuntimeValue) -> (res: Result<
    RuntimeValue,
    InterpretErrors,
>)
    ensures
        value_view(res) == text_op(op@, l@, right@),
{
    if text_is(op, "+") {
        let t = to_str(right)?;
        Ok(RuntimeValue::string(join(l, t.as_str())))
    } else if text_is(op, "==") {
        let t = to_str(right)?;
        Ok(RuntimeValue::boolean(text_is(l, t.as_str())))
    } else if text_is(op, "!=") {
        let t = to_str(right)?;
        Ok(RuntimeValue::boolean(!text_is(l, t.as_str())))
    } else {
        Err(InterpretErrors::unknown_operator(op.to_owned()))
    }
}

/// An operator on any value and, to its right, a string: `+` joins the
/// textual form of the value and the string, `==` and `!=` compare them.
pub open spec fn text_op_rev(op: Seq<char>, left: Value, r: Seq<char>) -> Result<
    Value,
    ErrorView,
> {
    if op == "+"@ {
        match text_of(left) {
            Some(t) => Ok(Value::String(t + r)),
            None => Err(ErrorView::UnsupportedConversion { target: Type::String }),
        }
    } else {
        text_op(op, r, left)
    }
}

/// An operator on any value and, to its right, a string.
pub fn str_op_rev(op: &str, left: &RuntimeValue, r: &str) -> (res: Result<
    RuntimeValue,
    InterpretErrors,
>)
    ensures
        value_view(res) == text_op_rev(op@, left@, r@),
{
    if text_is(op, "+") {
        let t = to_str(left)?;
        Ok(RuntimeValue::string(join(t.as_str(), r)))
    } else {
        str_op(op, r, left)
    }
}

/// The items of the first `n` of `a` that equal no item of `b`, in order.
pub open spec fn without(a: Seq<Value>, b: Seq<Value>, n: int) -> Seq<Value>
    decreases n,
{
    if n <= 0 || n > a.len() {
        Seq::empty()
    } else if has_same(b, a[n - 1]) {
        without(a, b, n - 1)
    } else {
        without(a, b, n - 1).push(a[n - 1])
    }
}

/// An operator on two arrays: `==` and `!=` compare them item by item, `+`
/// joins them, and `-` keeps the items of the first that equal none of the
/// second.
pub open spec fn list_op(op: Seq<char>, a: Seq<Value>, b: Seq<Value>) -> Result<Value, ErrorView> {
    if op == "=="@ {
        Ok(Value::Boolean(same_values(a, b)))
    } else if op == "!="@ {
        Ok(Value::Boolean(!same_values(a, b)))
    } else if op == "+"@ {
        Ok(Value::Array(a + b))
    } else if op == "-"@ {
        Ok(Value::Array(without(a, b, a.len() as int)))
    } else {
        Err(ErrorView::UnknownOperator { op })
    }
}

/// The items of `a` and then those of `b`.
pub fn concat_values(a: Vec<RuntimeValue>, b: Vec<RuntimeValue>) -> (r: Vec<RuntimeValue>)
    ensures
        values_view(r@) == values_view(a@) + values_view(b@),
{
    let mut out = a;
    let mut b = b;
    let ghost first = values_view(out@);
    let ghost second = values_view(b@);
    proof {
        lemma_values_view(out@);
        lemma_values_view(b@);
    }
    out.append(&mut b);
    proof {
        lemma_values_view(out@);
        assert(values_view(out@) =~= first + second);
    }
    out
}

/// The items of `a` that equal no item of `b`, in order.
pub fn remove_values(a: &Vec<RuntimeValue>, b: &Vec<RuntimeValue>) -> (r: Vec<RuntimeValue>)
    ensures
        values_view(r@) == without(values_view(a@), values_view(b@), a.len() as int),
{
    proof {
        lemma_values_view(a@);
        lemma_values_none();
    }
    let mut out: Vec<RuntimeValue> = Vec::new();
    assert(out@ =~= Seq::<RuntimeValue>::empty());
    let mut i: usize = 0;
    while i < a.len()
        invariant
            i <= a.len(),
            values_view(out@) == without(values_view(a@), values_view(b@), i as int),
            values_view(a@).len() == a.len(),
            forall|k: int| 0 <= k < a.len() ==> #[trigger] values_view(a@)[k] == a[k]@,
        decreases a.len() - i,
    {
        proof {
            assert(values_view(a@)[i as int] == a[i as int]@);
        }
        if !list_contains(b, &a[i]) {
            let item = a[i].clone();
            proof {
                lemma_values_push(out@, item);
            }
            out.push(item);
        }
        i += 1;
    }
    out
}

/// An operator on two arrays.
pub fn array_op(op: &str, a: Vec<RuntimeValue>, b: Vec<RuntimeValue>) -> (res: Result<
    RuntimeValue,
    InterpretErrors,
>)
    ensures
        value_view(res) == list_op(op@, values_view(a@), values_view(b@)),
{
    proof {
        lemma_values_view(a@);
    }
    if text_is(op, "==") {
        Ok(RuntimeValue::boolean(lists_equal(&a, &b)))
    } else if text_is(op, "!=") {
        Ok(RuntimeValue::boolean(!lists_equal(&a, &b)))
    } else if text_is(op, "+") {
        Ok(RuntimeValue::array(concat_values(a, b)))
    } else if text_is(op, "-") {
        Ok(RuntimeValue::array(remove_values(&a, &b)))
    } else {
        Err(InterpretErrors::unknown_operator(op.to_owned()))
    }
}

/// A binary operator on two values, by their kinds: numbers; truth values,
/// where an integer beside a truth value counts as true unless it is zero;
/// a string on either side; arrays. No other pair has an operator.
pub open spec fn binop(op: Seq<char>, l: Value, r: Value) -> Result<ReducedView, ErrorView> {
    if l is Number && r is Number {
        ready(int_op(op, l->Number_0, r->Number_0))
    } else if l is Float && r is Float {
        float_op(op, NumView::Float(l->Float_0), NumView::Float(r->Float_0))
    } else if l is Number && r is Float {
        float_op(op, NumView::Int(l->Number_0), NumView::Float(r->Float_0))
    } else if l is Float && r is Number {
        float_op(op, NumView::Float(l->Float_0), NumView::Int(r->Number_0))
    } else if l is Boolean && r is Boolean {
        ready(truth_op(op, l->Boolean_0, r->Boolean_0))
    } else if l is Number && r is Boolean {
        ready(truth_op(op, l->Number_0 != 0, r->Boolean_0))
    } else if l is Boolean && r is Number {
        ready(truth_op(op, l->Boolean_0, r->Number_0 != 0))
    } else if l is String {
        ready(text_op(op, l->String_0, r))
    } else if r is String {
        ready(text_op_rev(op, l, r->String_0))
    } else if l is Array && r is Array {
        ready(list_op(op, l->Array_0, r->Array_0))
    } else {
        Err(ErrorView::BinaryMismatch)
    }
}

/// A value as the result of a rule.
fn done(r: Result<RuntimeValue, InterpretErrors>) -> (res: Result<Reduced, InterpretErrors>)
    ensures
        reduced_view(res) == ready(value_view(r)),
{
    match r {
        Ok(v) => Ok(Reduced::Value(v)),
        Err(e) => Err(e),
    }
}

/// A binary operator on two values.
pub fn eval_binop(op: &str, left: RuntimeValue, right: RuntimeValue) -> (res: Result<
    Reduced,
    InterpretErrors,
>)
    ensures
        reduced_view(res) == binop(op@, left@, right@),
{
    match left {
        RuntimeValue::Number(l) => match right {
            RuntimeValue::Number(r) => done(num_op(op, l, r)),
            RuntimeValue::Float(r) => float_num_op(op, Num::Int(l), Num::Float(r)),
            RuntimeValue::Boolean(r) => done(bool_mixed_op(op, l != 0, r)),
            RuntimeValue::String(r) => done(str_op_rev(op, &RuntimeValue::number(l), r.as_str())),
            _ => Err(InterpretErrors::binary_mismatch()),
        },
        RuntimeValue::Float(l) => match right {
            RuntimeValue::Float(r) => float_num_op(op, Num::Float(l), Num::Float(r)),
            RuntimeValue::Number(r) => float_num_op(op, Num::Float(l), Num::Int(r)),
            RuntimeValue::String(r) => done(str_op_rev(op, &RuntimeValue::float(l), r.as_str())),
            _ => Err(InterpretErrors::binary_mismatch()),
        },
        RuntimeValue::Boolean(l) => match right {
            RuntimeValue::Boolean(r) => done(bool_op(op, l, r)),
            RuntimeValue::Number(r) => done(bool_mixed_op(op, l, r != 0)),
            RuntimeValue::String(r) => done(str_op_rev(op, &RuntimeValue::boolean(l), r.as_str())),
            _ => Err(InterpretErrors::binary_mismatch()),
        },
        RuntimeValue::String(l) => done(str_op(op, l.as_str(), &right)),
        RuntimeValue::Array(a) => match right {
            RuntimeValue::Array(b) => done(array_op(op, a, b)),
            RuntimeValue::String(r) => done(str_op_rev(op, &RuntimeValue::array(a), r.as_str())),
            _ => Err(InterpretErrors::binary_mismatch()),
        },
        other => match right {
            RuntimeValue::String(r) => done(str_op_rev(op, &other, r.as_str())),
            _ => Err(InterpretErrors::binary_mismatch()),
        },
    }
}

/// Whether a string counts as true: it is not empty, and neither `false`
/// nor `0`.
pub open spec fn text_truth(s: Seq<char>) -> bool {
    s.len() > 0 && s != "false"@ && s != "0"@
}

/// The conversion of a value to a type. Every value has a string, and an
/// array of its own. An integer, a double, a truth value and a string
/// convert among each other, where a string must spell the number it is to
/// become.
pub open spec fn converted(v: Value, target: Type) -> Result<ReducedView, ErrorView> {
    match target {
        Type::Int => match v {
            Value::Number(n) => Ok(ReducedView::Value(v)),
            Value::Float(t) => Ok(ReducedView::Ask(FloatTaskView::ToInt(t))),
            Value::Boolean(b) => Ok(
                ReducedView::Value(
                    Value::Number(
                        if b {
                            1
                        } else {
                            0
                        },
                    ),
                ),
            ),
            Value::String(s) => match int_of_text(s) {
                Some(n) => Ok(ReducedView::Value(Value::Number(n))),
                None => Err(ErrorView::UnsupportedConversion { target }),
            },
            _ => Err(ErrorView::UnsupportedConversion { target }),
        },
        Type::Float => match v {
            Value::Number(n) => Ok(ReducedView::Ask(FloatTaskView::FromInt(n))),
            Value::Float(t) => Ok(ReducedView::Value(v)),
            Value::Boolean(b) => Ok(
                ReducedView::Value(
                    Value::Float(
                        if b {
                            "1"@
                        } else {
                            "0"@
                        },
                    ),
                ),
            ),
            Value::String(s) => Ok(ReducedView::Ask(FloatTaskView::Parse(s))),
            _ => Err(ErrorView::UnsupportedConversion { target }),
        },
        Type::Bool => match v {
            Value::Number(n) => Ok(ReducedView::Value(Value::Boolean(n != 0))),
            Value::Float(t) => Ok(ReducedView::Value(Value::Boolean(!is_zero_text(t)))),
            Value::Boolean(b) => Ok(ReducedView::Value(v)),
            Value::String(s) => Ok(ReducedView::Value(Value::Boolean(text_truth(s)))),
            _ => Err(ErrorView::UnsupportedConversion { target }),
        },
        Type::String => Ok(ReducedView::Value(Value::String(line_text(v)))),
        Type::Array => match v {
            Value::Array(_) => Ok(ReducedView::Value(v)),
            _ => Ok(ReducedView::Value(Value::Array(seq![v]))),
        },
        Type::Void => Err(ErrorView::UnsupportedConversion { target }),
    }
}

/// A value as the result of a rule.
fn value(v: RuntimeValue) -> (res: Result<Reduced, InterpretErrors>)
    ensures
        reduced_view(res) == Ok::<ReducedView, ErrorView>(ReducedView::Value(v@)),
{
    Ok(Reduced::Value(v))
}

/// Work on doubles as the result of a rule.
fn work(t: FloatTask) -> (res: Result<Reduced, InterpretErrors>)
    ensures
        reduced_view(res) == Ok::<ReducedView, ErrorView>(ReducedView::Ask(t@)),
{
    Ok(Reduced::Ask(t))
}

/// The failure of a conversion.
fn no_conversion(target: Type) -> (res: Result<Reduced, InterpretErrors>)
    ensures
        reduced_view(res) == Err::<ReducedView, ErrorView>(
            ErrorView::UnsupportedConversion { target },
        ),
{
    Err(InterpretErrors::unsupported_conversion(target))
}

/// The conversion of a value to an integer.
fn convert_to_int(v: RuntimeValue) -> (res: Result<Reduced, InterpretErrors>)
    ensures
        reduced_view(res) == converted(v@, Type::Int),
{
    match v {
        RuntimeValue::Number(n) => value(RuntimeValue::number(n)),
        RuntimeValue::Float(t) => work(FloatTask::to_int(t)),
        RuntimeValue::Boolean(b) => value(
            RuntimeValue::number(
                if b {
                    1
                } else {
                    0
                },
            ),
        ),
        RuntimeValue::String(s) => match parse_int(s.as_str()) {
            Some(n) => value(RuntimeValue::number(n)),
            None => no_conversion(Type::Int),
        },
        _ => no_conversion(Type::Int),
    }
}

/// The conversion of a value to a double.
fn convert_to_float(v: RuntimeValue) -> (res: Result<Reduced, InterpretErrors>)
    ensures
        reduced_view(res) == converted(v@, Type::Float),
{
    match v {
        RuntimeValue::Number(n) => work(FloatTask::from_int(n)),
        RuntimeValue::Float(t) => value(RuntimeValue::float(t)),
        RuntimeValue::Boolean(b) => value(
            RuntimeValue::float(
                if b {
                    "1".to_owned()
                } else {
                    "0".to_owned()
                },
            ),
        ),
        RuntimeValue::String(s) => work(FloatTask::parse(s)),
        _ => no_conversion(Type::Float),
    }
}

/// The conversion of a value to a truth value.
fn convert_to_bool(v: RuntimeValue) -> (res: Result<Reduced, InterpretErrors>)
    ensures
        reduced_view(res) == converted(v@, Type::Bool),
{
    match v {
        RuntimeValue::Number(n) => value(RuntimeValue::boolean(n != 0)),
        RuntimeValue::Float(t) => value(RuntimeValue::boolean(!zero_text(t.as_str()))),
        RuntimeValue::Boolean(b) => value(RuntimeValue::boolean(b)),
        RuntimeValue::String(s) => {
            let t = s.as_str();
            value(
                RuntimeValue::boolean(
                    t.unicode_len() > 0 && !text_is(t, "false") && !text_is(t, "0"),
                ),
            )
        },
        _ => no_conversion(Type::Bool),
    }
}

/// The conversion of a value to an array.
fn convert_to_array(v: RuntimeValue) -> (res: Result<Reduced, InterpretErrors>)
    ensures
        reduced_view(res) == converted(v@, Type::Array),
{
    match v {
        RuntimeValue::Array(items) => value(RuntimeValue::array(items)),
        other => {
            let mut items: Vec<RuntimeValue> = Vec::new();
            proof {
                lemma_values_none();
                assert(items@ =~= Seq::<RuntimeValue>::empty());
                lemma_values_push(items@, other);
            }
            items.push(other);
            proof {
                assert(values_view(items@) =~= seq![other@]);
            }
            value(RuntimeValue::array(items))
        },
    }
}

/// The conversion of a value to a type.
pub fn convert(v: RuntimeValue, target: Type) -> (res: Result<Reduced, InterpretErrors>)
    ensures
        reduced_view(res) == converted(v@, target),
{
    match target {
        Type::Int => convert_to_int(v),
        Type::Float => convert_to_float(v),
        Type::Bool => convert_to_bool(v),
        Type::String => value(RuntimeValue::string(render(&v))),
        Type::Array => convert_to_array(v),
        Type::Void => no_conversion(Type::Void),
    }
}

/// Whether an operation on doubles gives a double: the others give a truth
/// value.
pub open spec fn is_arithmetic(op: FloatOp) -> bool {
    op == FloatOp::Add || op == FloatOp::Sub || op == FloatOp::Mul || op == FloatOp::Div || op
        == FloatOp::Rem
}

/// The value that the answer of the host gives to the work it was asked to
/// do. An answer of another kind than the work calls for is a failure, and
/// so is a string that spells no double.
pub open spec fn answer_of(task: FloatTaskView, event: EventView) -> Result<Value, ErrorView> {
    match task {
        FloatTaskView::Literal(_) => match event {
            EventView::Float(t) => Ok(Value::Float(t)),
            _ => Err(ErrorView::UnexpectedReply),
        },
        FloatTaskView::FromInt(_) => match event {
            EventView::Float(t) => Ok(Value::Float(t)),
            _ => Err(ErrorView::UnexpectedReply),
        },
        FloatTaskView::Parse(_) => match event {
            EventView::Float(t) => Ok(Value::Float(t)),
            EventView::Failed(_) => Err(ErrorView::UnsupportedConversion { target: Type::Float }),
            _ => Err(ErrorView::UnexpectedReply),
        },
        FloatTaskView::ToInt(_) => match event {
            EventView::Number(n) => Ok(Value::Number(n)),
            _ => Err(ErrorView::UnexpectedReply),
        },
        FloatTaskView::Binary { op, left, right } => match event {
            EventView::Float(t) => if is_arithmetic(op) {
                Ok(Value::Float(t))
            } else {
                Err(ErrorView::UnexpectedReply)
            },
            EventView::Boolean(b) => if is_arithmetic(op) {
                Err(ErrorView::UnexpectedReply)
            } else {
                Ok(Value::Boolean(b))
            },
            _ => Err(ErrorView::UnexpectedReply),
        },
    }
}

/// Whether an operation on doubles gives a double.
pub fn arithmetic(op: FloatOp) -> (r: bool)
    ensures
        r == is_arithmetic(op),
{
    match op {
        FloatOp::Add => true,
        FloatOp::Sub => true,
        FloatOp::Mul => true,
        FloatOp::Div => true,
        FloatOp::Rem => true,
        _ => false,
    }
}

/// The value that the answer of the host gives to the work it was asked to
/// do.
pub fn finish_float(task: &FloatTask, event: Event) -> (res: Result<RuntimeValue, InterpretErrors>)
    ensures
        value_view(res) == answer_of(task@, event@),
{
    match task {
        FloatTask::Literal(_) => match event {
            Event::Float(t) => Ok(RuntimeValue::float(t)),
            _ => Err(InterpretErrors::unexpected_reply()),
        },
        FloatTask::FromInt(_) => match event {
            Event::Float(t) => Ok(RuntimeValue::float(t)),
            _ => Err(InterpretErrors::unexpected_reply()),
        },
        FloatTask::Parse(_) => match event {
            Event::Float(t) => Ok(RuntimeValue::float(t)),
            Event::Failed(_) => Err(InterpretErrors::unsupported_conversion(Type::Float)),
            _ => Err(InterpretErrors::unexpected_reply()),
        },
        FloatTask::ToInt(_) => match event {
            Event::Number(n) => Ok(RuntimeValue::number(n)),
            _ => Err(InterpretErrors::unexpected_reply()),
        },
        FloatTask::Binary { op, left, right } => match event {
            Event::Float(t) => if arithmetic(*op) {
                Ok(RuntimeValue::float(t))
            } else {
                Err(InterpretErrors::unexpected_reply())
            },
            Event::Boolean(b) => if arithmetic(*op) {
                Err(InterpretErrors::unexpected_reply())
            } else {
                Ok(RuntimeValue::boolean(b))
            },
            _ => Err(InterpretErrors::unexpected_reply()),
        },
    }
}

/// A match as a value.
pub open spec fn match_of(f: (usize, usize, Seq<char>)) -> Value {
    Value::MatchValue(MatchView { text: f.2, start: f.0, end: f.1 })
}

/// The first match of a pattern in a text: a match, or nothing where the
/// pattern matches nowhere. A pattern that does not compile is a failure.
pub open spec fn first_match(text: Value, pattern: Value) -> Result<Value, ErrorView> {
    if text is String && pattern is Regex {
        match pattern_error(pattern->Regex_0) {
            Some(message) => Err(ErrorView::InvalidPattern { message }),
            None => match leftmost_match(pattern->Regex_0, text->String_0) {
                Some(f) => Ok(match_of(f)),
                None => Ok(Value::Void),
            },
        }
    } else {
        Err(ErrorView::CompileMismatch)
    }
}

/// The first match of a pattern in a text.
pub fn compile(text: &RuntimeValue, pattern: &RuntimeValue) -> (res: Result<
    RuntimeValue,
    InterpretErrors,
>)
    ensures
        value_view(res) == first_match(text@, pattern@),
{
    match text {
        RuntimeValue::String(s) => match pattern {
            RuntimeValue::Regex(p) => match find_first(p.as_str(), s.as_str()) {
                Ok(Some(f)) => Ok(
                    RuntimeValue::match_value(MatchResult { text: f.2, start: f.0, end: f.1 }),
                ),
                Ok(None) => Ok(RuntimeValue::void()),
                Err(message) => Err(InterpretErrors::invalid_pattern(message)),
            },
            _ => Err(InterpretErrors::compile_mismatch()),
        },
        _ => Err(InterpretErrors::compile_mismatch()),
    }
}

/// Every match of a pattern in a text, as an array of matches.
pub open spec fn all_matches(text: Value, pattern: Value) -> Result<Value, ErrorView> {
    if text is String && pattern is Regex {
        match pattern_error(pattern->Regex_0) {
            Some(message) => Err(ErrorView::InvalidPattern { message }),
            None => Ok(
                Value::Array(
                    every_match(pattern->Regex_0, text->String_0).map_values(
                        |f: (usize, usize, Seq<char>)| match_of(f),
                    ),
                ),
            ),
        }
    } else {
        Err(ErrorView::CompileMismatch)
    }
}

/// Every match of a pattern in a text.
pub fn compile_all(text: &RuntimeValue, pattern: &RuntimeValue) -> (res: Result<
    RuntimeValue,
    InterpretErrors,
>)
    ensures
        value_view(res) == all_matches(text@, pattern@),
{
    match text {
        RuntimeValue::String(s) => match pattern {
            RuntimeValue::Regex(p) => match find_every(p.as_str(), s.as_str()) {
                Ok(found) => {
                    let mut items: Vec<RuntimeValue> = Vec::new();
                    let mut i: usize = 0;
                    while i < found.len()
                        invariant
                            i <= found.len(),
                            items.len() == i,
                            forall|k: int|
                                0 <= k < i ==> #[trigger] items[k]@ == match_of(
                                    found_view(found[k]),
                                ),
                        decreases found.len() - i,
                    {
                        let f = &found[i];
                        items.push(
                            RuntimeValue::match_value(
                                MatchResult { text: f.2.clone(), start: f.0, end: f.1 },
                            ),
                        );
                        i += 1;
                    }
                    proof {
                        lemma_values_view(items@);
                        assert(values_view(items@) =~= founds_view(found@).map_values(
                            |f: (usize, usize, Seq<char>)| match_of(f),
                        ));
                    }
                    Ok(RuntimeValue::array(items))
                },
                Err(message) => Err(InterpretErrors::invalid_pattern(message)),
            },
            _ => Err(InterpretErrors::compile_mismatch()),
        },
        _ => Err(InterpretErrors::compile_mismatch()),
    }
}

} // verus!
