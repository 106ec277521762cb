//! The rules on values that need no state: textual forms, equality, type
//! names, indexing and the checks on bindings.

use crate::ast::Type;
use crate::errors::{ErrorView, InterpretErrors};
use crate::text::{decimal, display_count, display_int, join, text_is};
use crate::value::{
    lemma_values_view, matches_view, values_view, MatchResult, MatchView, RuntimeValue, Value,
};
use vstd::prelude::*;

verus! {

broadcast use vstd::std_specs::vec::group_vec_axioms;

/// The text of a truth value.
pub open spec fn bool_text(b: bool) -> Seq<char> {
    if b {
        "true"@
    } else {
        "false"@
    }
}

/// The text of a truth value.
pub fn bool_word(b: bool) -> (r: String)
    ensures
        r@ == bool_text(b),
{
    if b {
        "true".to_owned()
    } else {
        "false".to_owned()
    }
}

/// The textual form of a number, a truth value or a string. Other values
/// have none.
pub open spec fn text_of(v: Value) -> Option<Seq<char>> {
    match v {
        Value::Number(n) => Some(decimal(n as int)),
        Value::Float(t) => Some(t),
        Value::Boolean(b) => Some(bool_text(b)),
        Value::String(s) => Some(s),
        _ => None,
    }
}

/// The textual form of a number, a truth value or a string.
pub fn to_str(value: &RuntimeValue) -> (res: Result<String, InterpretErrors>)
    ensures
        match res {
            Ok(s) => text_of(value@) == Some(s@),
            Err(e) => text_of(value@) is None && e@ == (ErrorView::UnsupportedConversion {
                target: Type::String,
            }),
        },
{
    match value {
        RuntimeValue::Number(n) => Ok(display_int(*n)),
        RuntimeValue::Float(t) => Ok(t.clone()),
        RuntimeValue::Boolean(b) => Ok(bool_word(*b)),
        RuntimeValue::String(s) => Ok(s.clone()),
        _ => Err(InterpretErrors::unsupported_conversion(Type::String)),
    }
}

/// Whether the text of a double is that of zero, of either sign.
pub open spec fn is_zero_text(t: Seq<char>) -> bool {
    t == "0"@ || t == "-0"@
}

/// Whether the text of a double is that of zero.
pub fn zero_text(t: &str) -> (r: bool)
    ensures
        r == is_zero_text(t@),
{
    text_is(t, "0") || text_is(t, "-0")
}

/// Whether two doubles, given by their texts, are equal: a double that is
/// not a number equals none, and the two zeros equal each other.
pub open spec fn same_float(a: Seq<char>, b: Seq<char>) -> bool {
    if a == "NaN"@ || b == "NaN"@ {
        false
    } else if is_zero_text(a) && is_zero_text(b) {
        true
    } else {
        a == b
    }
}

/// Whether two doubles, given by their texts, are equal.
pub fn floats_equal(a: &str, b: &str) -> (r: bool)
    ensures
        r == same_float(a@, b@),
{
    if text_is(a, "NaN") || text_is(b, "NaN") {
        false
    } else if zero_text(a) && zero_text(b) {
        true
    } else {
        text_is(a, b)
    }
}

/// Whether two values are equal: of the same kind, with equal contents.
pub open spec fn same_value(a: Value, b: Value) -> bool
    decreases a,
{
    match a {
        Value::Number(x) => b is Number && b->Number_0 == x,
        Value::Float(x) => b is Float && same_float(x, b->Float_0),
        Value::String(x) => b is String && b->String_0 == x,
        Value::Regex(x) => b is Regex && b->Regex_0 == x,
        Value::Boolean(x) => b is Boolean && b->Boolean_0 == x,
        Value::Array(x) => b is Array && same_values(x, b->Array_0),
        Value::Void => b is Void,
        Value::MatchValue(x) => b is MatchValue && b->MatchValue_0 == x,
        Value::ReturnValue(x) => b is ReturnValue && same_value(*x, *b->ReturnValue_0),
        Value::ConstValue(x) => b is ConstValue && same_value(*x, *b->ConstValue_0),
        Value::MatchArray(x) => b is MatchArray && b->MatchArray_0 == x,
    }
}

/// Whether two lists of values are equal, item by item.
pub open spec fn same_values(a: Seq<Value>, b: Seq<Value>) -> bool
    decreases a, a.len() + 1,
{
    a.len() == b.len() && same_items(a, b, a.len() as int)
}

/// Whether the first `n` items of two lists are equal, item by item.
pub open spec fn same_items(a: Seq<Value>, b: Seq<Value>, n: int) -> bool
    decreases a, n,
{
    if n <= 0 || n > a.len() {
        true
    } else {
        same_items(a, b, n - 1) && same_value(a[n - 1], b[n - 1])
    }
}

/// Whether two matches are equal.
pub fn matches_equal(a: &MatchResult, b: &MatchResult) -> (r: bool)
    ensures
        r == (a@ == b@),
{
    a.text == b.text && a.start == b.start && a.end == b.end
}

/// Whether two lists of matches are equal.
pub fn match_lists_equal(a: &Vec<MatchResult>, b: &Vec<MatchResult>) -> (r: bool)
    ensures
        r == (matches_view(a@) == matches_view(b@)),
{
    if a.len() != b.len() {
        assert(matches_view(a@).len() != matches_view(b@).len());
        return false;
    }
    let mut i: usize = 0;
    while i < a.len()
        invariant
            i <= a.len(),
            a.len() == b.len(),
            forall|k: int| 0 <= k < i ==> a[k]@ == b[k]@,
        decreases a.len() - i,
    {
        if !matches_equal(&a[i], &b[i]) {
            assert(matches_view(a@)[i as int] != matches_view(
                b@,
            )[i as int]);
            return false;
        }
        i += 1;
    }
    assert(matches_view(a@) =~= matches_view(b@));
    true
}

/// Whether two values are equal.
pub fn values_equal(a: &RuntimeValue, b: &RuntimeValue) -> (r: bool)
    ensures
        r == same_value(a@, b@),
    decreases a,
{
    match a {
        RuntimeValue::Number(x) => match b {
            RuntimeValue::Number(y) => *x == *y,
            _ => false,
        },
        RuntimeValue::Float(x) => match b {
            RuntimeValue::Float(y) => floats_equal(x.as_str(), y.as_str()),
            _ => false,
        },
        RuntimeValue::String(x) => match b {
            RuntimeValue::String(y) => *x == *y,
            _ => false,
        },
        RuntimeValue::Regex(x) => match b {
            RuntimeValue::Regex(y) => *x == *y,
            _ => false,
        },
        RuntimeValue::Boolean(x) => match b {
            RuntimeValue::Boolean(y) => *x == *y,
            _ => false,
        },
        RuntimeValue::Array(x) => match b {
            RuntimeValue::Array(y) => lists_equal(x, y),
            _ => false,
        },
        RuntimeValue::Void => match b {
            RuntimeValue::Void => true,
            _ => false,
        },
        RuntimeValue::MatchValue(x) => match b {
            RuntimeValue::MatchValue(y) => matches_equal(x, y),
            _ => false,
        },
        RuntimeValue::ReturnValue(x) => match b {
            RuntimeValue::ReturnValue(y) => values_equal(x, y),
            _ => false,
        },
        RuntimeValue::ConstValue(x) => match b {
            RuntimeValue::ConstValue(y) => values_equal(x, y),
            _ => false,
        },
        RuntimeValue::MatchArray(x) => match b {
            RuntimeValue::MatchArray(y) => match_lists_equal(x, y),
            _ => false,
        },
    }
}

/// Whether two lists of values are equal, item by item.
pub fn lists_equal(a: &Vec<RuntimeValue>, b: &Vec<RuntimeValue>) -> (r: bool)
    ensures
        r == same_values(values_view(a@), values_view(b@)),
    decreases a,
{
    proof {
        lemma_values_view(a@);
        lemma_values_view(b@);
    }
    if a.len() != b.len() {
        return false;
    }
    let mut i: usize = 0;
    while i < a.len()
        invariant
            i <= a.len(),
            a.len() == b.len(),
            same_items(values_view(a@), values_view(b@), i as int),
            values_view(a@).len() == a.len(),
            values_view(b@).len() == b.len(),
            forall|k: int| 0 <= k < a.len() ==> #[trigger] values_view(a@)[k] == a[k]@,
            forall|k: int| 0 <= k < b.len() ==> #[trigger] values_view(b@)[k] == b[k]@,
        decreases a.len() - i,
    {
        if !values_equal(&a[i], &b[i]) {
            proof {
                assert(values_view(a@)[i as int] == a[i as int]@);
                assert(values_view(b@)[i as int] == b[i as int]@);
                lemma_items_differ(values_view(a@), values_view(b@), i as int, a.len() as int);
            }
            return false;
        }
        proof {
            assert(values_view(a@)[i as int] == a[i as int]@);
            assert(values_view(b@)[i as int] == b[i as int]@);
        }
        i += 1;
    }
    true
}

/// Two lists that differ at one place differ as lists.
pub proof fn lemma_items_differ(a: Seq<Value>, b: Seq<Value>, i: int, n: int)
    requires
        0 <= i < n <= a.len(),
        !same_value(a[i], b[i]),
    ensures
        !same_items(a, b, n),
    decreases n,
{
    if n - 1 > i {
        lemma_items_differ(a, b, i, n - 1);
    }
}

/// Whether some item of `list` equals `v`.
pub open spec fn has_same(list: Seq<Value>, v: Value) -> bool {
    exists|j: int| 0 <= j < list.len() && #[trigger] same_value(v, list[j])
}

/// Whether some item of `list` equals `v`.
pub fn list_contains(list: &Vec<RuntimeValue>, v: &RuntimeValue) -> (r: bool)
    ensures
        r == has_same(values_view(list@), v@),
{
    proof {
        lemma_values_view(list@);
    }
    let mut j: usize = 0;
    while j < list.len()
        invariant
            j <= list.len(),
            forall|k: int| 0 <= k < j ==> !same_value(v@, #[trigger] list[k]@),
            values_view(list@).len() == list.len(),
            forall|k: int| 0 <= k < list.len() ==> #[trigger] values_view(list@)[k] == list[k]@,
        decreases list.len() - j,
    {
        if values_equal(v, &list[j]) {
            assert(same_value(v@, values_view(list@)[j as int]));
            return true;
        }
        j += 1;
    }
    assert forall|k: int| 0 <= k < values_view(list@).len() implies !#[trigger] same_value(
        v@,
        values_view(list@)[k],
    ) by {
        assert(!same_value(v@, list[k]@));
    }
    false
}

/// The name of the kind of a value.
pub open spec fn kind_name(v: Value) -> Seq<char> {
    match v {
        Value::Number(_) => "int"@,
        Value::Float(_) => "float"@,
        Value::Boolean(_) => "bool"@,
        Value::String(_) => "string"@,
        Value::Regex(_) => "regex"@,
        Value::Array(_) => "array"@,
        Value::ReturnValue(_) => "ReturnValue"@,
        Value::MatchValue(_) => "MatchValue"@,
        Value::Void => "void"@,
        Value::ConstValue(_) => "const"@,
        Value::MatchArray(_) => "MatchArray"@,
    }
}

/// The name of the kind of a value.
pub fn kind_word(v: &RuntimeValue) -> (r: String)
    ensures
        r@ == kind_name(v@),
{
    match v {
        RuntimeValue::Number(_) => "int".to_owned(),
        RuntimeValue::Float(_) => "float".to_owned(),
        RuntimeValue::Boolean(_) => "bool".to_owned(),
        RuntimeValue::String(_) => "string".to_owned(),
        RuntimeValue::Regex(_) => "regex".to_owned(),
        RuntimeValue::Array(_) => "array".to_owned(),
        RuntimeValue::ReturnValue(_) => "ReturnValue".to_owned(),
        RuntimeValue::MatchValue(_) => "MatchValue".to_owned(),
        RuntimeValue::Void => "void".to_owned(),
        RuntimeValue::ConstValue(_) => "const".to_owned(),
        RuntimeValue::MatchArray(_) => "MatchArray".to_owned(),
    }
}

/// The element of an array at an index.
pub open spec fn element_of(array: Value, index: Value) -> Result<Value, ErrorView> {
    if array is Array && index is Number {
        let items = array->Array_0;
        let i = index->Number_0;
        if 0 <= i < items.len() {
            Ok(items[i as int])
        } else {
            Err(ErrorView::IndexOutOfBounds { index: i, len: items.len() as usize })
        }
    } else {
        Err(ErrorView::NotIndexable)
    }
}

/// The element of an array at an index. The index must be an integer from
/// zero to below the length.
pub fn index_value(array: &RuntimeValue, index: &RuntimeValue) -> (res: Result<
    RuntimeValue,
    InterpretErrors,
>)
    ensures
        match res {
            Ok(v) => element_of(array@, index@) == Ok::<Value, ErrorView>(v@),
            Err(e) => element_of(array@, index@) == Err::<Value, ErrorView>(e@),
        },
{
    match array {
        RuntimeValue::Array(items) => match index {
            RuntimeValue::Number(i) => {
                proof {
                    lemma_values_view(items@);
                }
                if *i < 0 || (*i as u64) >= items.len() as u64 {
                    Err(InterpretErrors::index_out_of_bounds(*i, items.len()))
                } else {
                    Ok(items[*i as usize].clone())
                }
            },
            _ => Err(InterpretErrors::not_indexable()),
        },
        _ => Err(InterpretErrors::not_indexable()),
    }
}

/// Whether a binding that holds `existing` takes `incoming` by assignment:
/// a binding that holds nothing takes anything, a binding that holds a
/// constant or a value on its way out of a function takes nothing, and any
/// other takes a value of its own kind.
pub open spec fn keeps_kind(existing: Value, incoming: Value) -> bool {
    match existing {
        Value::Void => true,
        Value::Number(_) => incoming is Number,
        Value::Float(_) => incoming is Float,
        Value::Boolean(_) => incoming is Boolean,
        Value::String(_) => incoming is String,
        Value::Array(_) => incoming is Array,
        Value::Regex(_) => incoming is Regex,
        Value::MatchValue(_) => incoming is MatchValue,
        Value::ReturnValue(_) => false,
        Value::MatchArray(_) => incoming is MatchArray,
        Value::ConstValue(_) => false,
    }
}

/// Whether a binding that holds `existing` takes `incoming` by assignment.
pub fn same_kind(existing: &RuntimeValue, incoming: &RuntimeValue) -> (r: bool)
    ensures
        r == keeps_kind(existing@, incoming@),
{
    match existing {
        RuntimeValue::Void => true,
        RuntimeValue::Number(_) => match incoming {
            RuntimeValue::Number(_) => true,
            _ => false,
        },
        RuntimeValue::Float(_) => match incoming {
            RuntimeValue::Float(_) => true,
            _ => false,
        },
        RuntimeValue::Boolean(_) => match incoming {
            RuntimeValue::Boolean(_) => true,
            _ => false,
        },
        RuntimeValue::String(_) => match incoming {
            RuntimeValue::String(_) => true,
            _ => false,
        },
        RuntimeValue::Array(_) => match incoming {
            RuntimeValue::Array(_) => true,
            _ => false,
        },
        RuntimeValue::Regex(_) => match incoming {
            RuntimeValue::Regex(_) => true,
            _ => false,
        },
        RuntimeValue::MatchValue(_) => match incoming {
            RuntimeValue::MatchValue(_) => true,
            _ => false,
        },
        RuntimeValue::ReturnValue(_) => false,
        RuntimeValue::MatchArray(_) => match incoming {
            RuntimeValue::MatchArray(_) => true,
            _ => false,
        },
        RuntimeValue::ConstValue(_) => false,
    }
}

/// Whether a value is of a declared type. A regex counts as a string, and a
/// match or a list of matches as an array. Nothing is of type `void`.
pub open spec fn fits_type(v: Value, t: Type) -> bool {
    match t {
        Type::Int => v is Number,
        Type::Float => v is Float,
        Type::Bool => v is Boolean,
        Type::String => v is String || v is Regex,
        Type::Array => v is Array || v is MatchValue || v is MatchArray,
        Type::Void => false,
    }
}

/// Whether a value is of a declared type.
pub fn has_type(v: &RuntimeValue, t: Type) -> (r: bool)
    ensures
        r == fits_type(v@, t),
{
    match t {
        Type::Int => match v {
            RuntimeValue::Number(_) => true,
            _ => false,
        },
        Type::Float => match v {
            RuntimeValue::Float(_) => true,
            _ => false,
        },
        Type::Bool => match v {
            RuntimeValue::Boolean(_) => true,
            _ => false,
        },
        Type::String => match v {
            RuntimeValue::String(_) => true,
            RuntimeValue::Regex(_) => true,
            _ => false,
        },
        Type::Array => match v {
            RuntimeValue::Array(_) => true,
            RuntimeValue::MatchValue(_) => true,
            RuntimeValue::MatchArray(_) => true,
            _ => false,
        },
        Type::Void => false,
    }
}

/// The characters of a string, each as a string of its own.
pub open spec fn chars_of(s: Seq<char>) -> Seq<Value> {
    Seq::new(s.len(), |i: int| Value::String(seq![s[i]]))
}

/// The characters of a string, each as a string of its own.
pub fn string_chars(s: &str) -> (r: Vec<RuntimeValue>)
    ensures
        values_view(r@) == chars_of(s@),
{
    let n = s.unicode_len();
    let mut out: Vec<RuntimeValue> = Vec::new();
    let mut i: usize = 0;
    while i < n
        invariant
            n == s@.len(),
            i <= n,
            out.len() == i,
            forall|k: int| 0 <= k < i ==> #[trigger] out[k]@ == Value::String(seq![s@[k]]),
        decreases n - i,
    {
        let one = s.substring_char(i, i + 1).to_owned();
        proof {
            assert(one@ =~= seq![s@[i as int]]);
        }
        out.push(RuntimeValue::string(one));
        i += 1;
    }
    proof {
        lemma_values_view(out@);
        assert(values_view(out@) =~= chars_of(s@));
    }
    out
}

/// A line without the line end that closes it, if one does.
pub open spec fn without_line_end(s: Seq<char>) -> Seq<char> {
    if s.len() >= 2 && s[s.len() - 2] == '\r' && s[s.len() - 1] == '\n' {
        s.subrange(0, s.len() - 2)
    } else if s.len() >= 1 && s[s.len() - 1] == '\n' {
        s.subrange(0, s.len() - 1)
    } else {
        s
    }
}

/// A line without the line end that closes it.
pub fn strip_line_end(s: &str) -> (r: String)
    ensures
        r@ == without_line_end(s@),
{
    let n = s.unicode_len();
    if n >= 2 && s.get_char(n - 2) == '\r' && s.get_char(n - 1) == '\n' {
        s.substring_char(0, n - 2).to_owned()
    } else if n >= 1 && s.get_char(n - 1) == '\n' {
        s.substring_char(0, n - 1).to_owned()
    } else {
        s.to_owned()
    }
}

/// How a match is written.
pub open spec fn match_text(m: MatchView) -> Seq<char> {
    "Match(text: \""@ + m.text + "\", start: "@ + decimal(m.start as int) + ", end: "@ + decimal(
        m.end as int,
    ) + ")"@
}

/// How a match is written.
pub fn render_match(m: &MatchResult) -> (r: String)
    ensures
        r@ == match_text(m@),
{
    let mut out = join("Match(text: \"", m.text.as_str());
    out.append("\", start: ");
    out.append(display_count(m.start).as_str());
    out.append(", end: ");
    out.append(display_count(m.end).as_str());
    out.append(")");
    out
}

/// How the first `n` of a list of matches are written, with `, ` between
/// each two.
pub open spec fn matches_text(ms: Seq<MatchView>, n: int) -> Seq<char>
    decreases n,
{
    if n <= 0 {
        Seq::empty()
    } else if n == 1 {
        match_text(ms[0])
    } else {
        matches_text(ms, n - 1) + ", "@ + match_text(ms[n - 1])
    }
}

/// How a list of matches is written.
pub fn render_matches(ms: &Vec<MatchResult>) -> (r: String)
    ensures
        r@ == matches_text(matches_view(ms@), ms.len() as int),
{
    let mut out = String::new();
    let mut i: usize = 0;
    while i < ms.len()
        invariant
            i <= ms.len(),
            out@ == matches_text(matches_view(ms@), i as int),
        decreases ms.len() - i,
    {
        if i > 0 {
            out.append(", ");
        }
        let one = render_match(&ms[i]);
        out.append(one.as_str());
        proof {
            assert(matches_view(ms@)[i as int] == ms[i as int]@);
            if i == 0 {
                assert(Seq::<char>::empty() + one@ =~= one@);
            }
        }
        i += 1;
    }
    out
}

/// How a value is written inside another: as on a line of its own, but a
/// string stands between quotes.
pub open spec fn item_text(v: Value) -> Seq<char>
    decreases v,
{
    match v {
        Value::Number(n) => decimal(n as int),
        Value::Float(t) => t,
        Value::String(s) => "\""@ + s + "\""@,
        Value::Regex(p) => p,
        Value::Boolean(b) => bool_text(b),
        Value::Array(items) => "["@ + items_text(items, items.len() as int) + "]"@,
        Value::Void => "()"@,
        Value::MatchValue(m) => match_text(m),
        Value::ReturnValue(inner) => "Return("@ + item_text(*inner) + ")"@,
        Value::ConstValue(inner) => "Const("@ + item_text(*inner) + ")"@,
        Value::MatchArray(ms) => "MatchArray["@ + matches_text(ms, ms.len() as int) + "]"@,
    }
}

/// How the first `n` items of a list are written, with `, ` between each
/// two.
pub open spec fn items_text(items: Seq<Value>, n: int) -> Seq<char>
    decreases items, n,
{
    if n <= 0 || n > items.len() {
        Seq::empty()
    } else if n == 1 {
        item_text(items[0])
    } else {
        items_text(items, n - 1) + ", "@ + item_text(items[n - 1])
    }
}

/// How a value is written on a line of its own.
pub open spec fn line_text(v: Value) -> Seq<char> {
    match v {
        Value::String(s) => s,
        _ => item_text(v),
    }
}

/// How a value is written inside another.
pub fn print_value(v: &RuntimeValue) -> (r: String)
    ensures
        r@ == item_text(v@),
    decreases v,
{
    match v {
        RuntimeValue::Number(n) => display_int(*n),
        RuntimeValue::Float(t) => t.clone(),
        RuntimeValue::String(s) => {
            let mut out = join("\"", s.as_str());
            out.append("\"");
            out
        },
        RuntimeValue::Regex(p) => p.clone(),
        RuntimeValue::Boolean(b) => bool_word(*b),
        RuntimeValue::Array(items) => print_array(items),
        RuntimeValue::Void => "()".to_owned(),
        RuntimeValue::MatchValue(m) => render_match(m),
        RuntimeValue::ReturnValue(inner) => {
            let mut out = join("Return(", print_value(inner).as_str());
            out.append(")");
            out
        },
        RuntimeValue::ConstValue(inner) => {
            let mut out = join("Const(", print_value(inner).as_str());
            out.append(")");
            out
        },
        RuntimeValue::MatchArray(ms) => {
            let mut out = join("MatchArray[", render_matches(ms).as_str());
            out.append("]");
            out
        },
    }
}

/// How an array is written: its items between brackets, with `, ` between
/// each two.
pub fn print_array(items: &Vec<RuntimeValue>) -> (r: String)
    ensures
        r@ == "["@ + items_text(values_view(items@), items.len() as int) + "]"@,
    decreases items,
{
    proof {
        lemma_values_view(items@);
    }
    let mut inner = String::new();
    let mut i: usize = 0;
    while i < items.len()
        invariant
            i <= items.len(),
            inner@ == items_text(values_view(items@), i as int),
            values_view(items@).len() == items.len(),
            forall|k: int| 0 <= k < items.len() ==> #[trigger] values_view(items@)[k] == items[k]@,
        decreases items.len() - i,
    {
        if i > 0 {
            inner.append(", ");
        }
        let one = print_value(&items[i]);
        inner.append(one.as_str());
        proof {
            if i == 0 {
                assert(Seq::<char>::empty() + one@ =~= one@);
            }
        }
        i += 1;
    }
    let mut out = join("[", inner.as_str());
    out.append("]");
    out
}

/// How a value is written on a line of its own.
pub fn render(v: &RuntimeValue) -> (r: String)
    ensures
        r@ == line_text(v@),
{
    match v {
        RuntimeValue::String(s) => s.clone(),
        _ => print_value(v),
    }
}

/// A value without the wrapper of a constant, if it has one.
pub open spec fn unwrapped(v: Value) -> Value {
    match v {
        Value::ConstValue(inner) => *inner,
        _ => v,
    }
}

/// A value without the wrapper of a constant, if it has one.
pub fn interpret_constant(value: RuntimeValue) -> (r: RuntimeValue)
    ensures
        r@ == unwrapped(value@),
{
    match value {
        RuntimeValue::ConstValue(inner) => *inner,
        other => other,
    }
}

/// A value without the wrapper of a return, if it has one.
pub open spec fn returned(v: Value) -> Value {
    match v {
        Value::ReturnValue(inner) => *inner,
        _ => v,
    }
}

/// A value without the wrapper of a return, if it has one.
pub fn unwrap_return(value: RuntimeValue) -> (r: RuntimeValue)
    ensures
        r@ == returned(value@),
{
    match value {
        RuntimeValue::ReturnValue(inner) => *inner,
        other => other,
    }
}

} // verus!
