//! The values that a program computes.

use vstd::prelude::*;

verus! {

broadcast use vstd::std_specs::vec::group_vec_axioms;

/// One match of a pattern: the text matched and where it stands in the
/// subject, as byte offsets.
#[derive(Debug, PartialEq)]
pub struct MatchResult {
    pub text: String,
    pub start: usize,
    pub end: usize,
}

/// A match as contracts see it.
pub ghost struct MatchView {
    pub text: Seq<char>,
    pub start: usize,
    pub end: usize,
}

impl View for MatchResult {
    type V = MatchView;

    open spec fn view(&self) -> MatchView {
        MatchView { text: self.text@, start: self.start, end: self.end }
    }
}

/// A copy of a match.
pub fn clone_match(m: &MatchResult) -> (r: MatchResult)
    ensures
        r@ == m@,
{
    MatchResult { text: m.text.clone(), start: m.start, end: m.end }
}

impl Clone for MatchResult {
    fn clone(&self) -> (r: Self)
        ensures
            r@ == self@,
    {
        clone_match(self)
    }
}

/// A list of matches as contracts see it.
pub open spec fn matches_view(v: Seq<MatchResult>) -> Seq<MatchView> {
    v.map_values(|m: MatchResult| m@)
}

/// A copy of a list of matches.
pub fn clone_matches(v: &Vec<MatchResult>) -> (r: Vec<MatchResult>)
    ensures
        matches_view(r@) == matches_view(v@),
{
    let mut out: Vec<MatchResult> = Vec::new();
    let mut i: usize = 0;
    while i < v.len()
        invariant
            i <= v.len(),
            out.len() == i,
            forall|k: int| 0 <= k < i ==> out[k]@ == v[k]@,
        decreases v.len() - i,
    {
        out.push(clone_match(&v[i]));
        i += 1;
    }
    assert(matches_view(out@) =~= matches_view(v@));
    out
}

/// A value at run time.
#[derive(Debug, PartialEq)]
#[allow(inconsistent_fields)]
pub enum RuntimeValue {
    Number(i64),
    /// A double, held as the shortest decimal text that reads back as the same double.
    Float(String),
    String(String),
    /// A pattern, not yet compiled.
    Regex(String),
    Boolean(bool),
    Array(Vec<RuntimeValue>),
    Void,
    MatchValue(Box<MatchResult>),
    /// A value on its way out of a function body.
    ReturnValue(Box<RuntimeValue>),
    /// The value of a binding that cannot be changed.
    ConstValue(Box<RuntimeValue>),
    MatchArray(Vec<MatchResult>),
}

/// A value at run time as contracts see it.
#[allow(inconsistent_fields)]
pub ghost enum Value {
    Number(i64),
    Float(Seq<char>),
    String(Seq<char>),
    Regex(Seq<char>),
    Boolean(bool),
    Array(Seq<Value>),
    Void,
    MatchValue(MatchView),
    ReturnValue(Box<Value>),
    ConstValue(Box<Value>),
    MatchArray(Seq<MatchView>),
}

/// A value as contracts see it.
pub open spec fn value_view(n: RuntimeValue) -> Value
    decreases n,
{
    match n {
        RuntimeValue::Number(x0) => Value::Number(x0),
        RuntimeValue::Float(x0) => Value::Float(x0@),
        RuntimeValue::String(x0) => Value::String(x0@),
        RuntimeValue::Regex(x0) => Value::Regex(x0@),
        RuntimeValue::Boolean(x0) => Value::Boolean(x0),
        RuntimeValue::Array(x0) => Value::Array(values_view(x0@)),
        RuntimeValue::Void => Value::Void,
        RuntimeValue::MatchValue(x0) => Value::MatchValue((*x0)@),
        RuntimeValue::ReturnValue(x0) => Value::ReturnValue(Box::new(value_view(*x0))),
        RuntimeValue::ConstValue(x0) => Value::ConstValue(Box::new(value_view(*x0))),
        RuntimeValue::MatchArray(x0) => Value::MatchArray(matches_view(x0@)),
    }
}

impl View for RuntimeValue {
    type V = Value;

    open spec fn view(&self) -> Value {
        value_view(*self)
    }
}

/// A copy of a value.
pub fn clone_value(n: &RuntimeValue) -> (r: RuntimeValue)
    ensures
        r@ == n@,
    decreases n,
{
    match n {
        RuntimeValue::Number(x0) => RuntimeValue::Number(*x0),
        RuntimeValue::Float(x0) => RuntimeValue::Float(x0.clone()),
        RuntimeValue::String(x0) => RuntimeValue::String(x0.clone()),
        RuntimeValue::Regex(x0) => RuntimeValue::Regex(x0.clone()),
        RuntimeValue::Boolean(x0) => RuntimeValue::Boolean(*x0),
        RuntimeValue::Array(x0) => RuntimeValue::Array(clone_values(x0)),
        RuntimeValue::Void => RuntimeValue::Void,
        RuntimeValue::MatchValue(x0) => RuntimeValue::MatchValue(Box::new(clone_match(x0))),
        RuntimeValue::ReturnValue(x0) => RuntimeValue::ReturnValue(Box::new(clone_value(x0))),
        RuntimeValue::ConstValue(x0) => RuntimeValue::ConstValue(Box::new(clone_value(x0))),
        RuntimeValue::MatchArray(x0) => RuntimeValue::MatchArray(clone_matches(x0)),
    }
}

/// A list of values as contracts see it.
pub open spec fn values_view(v: Seq<RuntimeValue>) -> Seq<Value>
    decreases v,
{
    Seq::new(
        v.len(),
        |i: int|
            if 0 <= i < v.len() {
                value_view(v[i])
            } else {
                Value::Void
            },
    )
}

/// A copy of a list of values.
pub fn clone_values(v: &Vec<RuntimeValue>) -> (r: Vec<RuntimeValue>)
    ensures
        values_view(r@) == values_view(v@),
    decreases v,
{
    let mut out: Vec<RuntimeValue> = Vec::new();
    let mut i: usize = 0;
    while i < v.len()
        invariant
            i <= v.len(),
            out.len() == i,
            forall|k: int| 0 <= k < i ==> out[k]@ == v[k]@,
        decreases v.len() - i,
    {
        out.push(clone_value(&v[i]));
        i += 1;
    }
    assert(values_view(out@) =~= values_view(v@));
    out
}

impl Clone for RuntimeValue {
    fn clone(&self) -> (r: Self)
        ensures
            r@ == self@,
    {
        clone_value(self)
    }
}

impl RuntimeValue {
    /// An integer.
    pub fn number(n: i64) -> (r: RuntimeValue)
        ensures
            r@ == Value::Number(n),
    {
        RuntimeValue::Number(n)
    }

    /// A double, given as its decimal text.
    pub fn float(text: String) -> (r: RuntimeValue)
        ensures
            r@ == Value::Float(text@),
    {
        RuntimeValue::Float(text)
    }

    /// A string.
    pub fn string(text: String) -> (r: RuntimeValue)
        ensures
            r@ == Value::String(text@),
    {
        RuntimeValue::String(text)
    }

    /// A pattern.
    pub fn regex(pattern: String) -> (r: RuntimeValue)
        ensures
            r@ == Value::Regex(pattern@),
    {
        RuntimeValue::Regex(pattern)
    }

    /// A truth value.
    pub fn boolean(b: bool) -> (r: RuntimeValue)
        ensures
            r@ == Value::Boolean(b),
    {
        RuntimeValue::Boolean(b)
    }

    /// An array.
    pub fn array(items: Vec<RuntimeValue>) -> (r: RuntimeValue)
        ensures
            r@ == Value::Array(values_view(items@)),
    {
        RuntimeValue::Array(items)
    }

    /// The value of what has none.
    pub fn void() -> (r: RuntimeValue)
        ensures
            r@ == Value::Void,
    {
        RuntimeValue::Void
    }

    /// A match.
    pub fn match_value(m: MatchResult) -> (r: RuntimeValue)
        ensures
            r@ == Value::MatchValue(m@),
    {
        RuntimeValue::MatchValue(Box::new(m))
    }

    /// A value on its way out of a function body.
    pub fn return_value(inner: RuntimeValue) -> (r: RuntimeValue)
        ensures
            r@ == Value::ReturnValue(Box::new(inner@)),
    {
        RuntimeValue::ReturnValue(Box::new(inner))
    }

    /// The value of a constant.
    pub fn const_value(inner: RuntimeValue) -> (r: RuntimeValue)
        ensures
            r@ == Value::ConstValue(Box::new(inner@)),
    {
        RuntimeValue::ConstValue(Box::new(inner))
    }
}

/// Appending a value to a list appends its view.
pub proof fn lemma_values_push(before: Seq<RuntimeValue>, value: RuntimeValue)
    ensures
        values_view(before.push(value)) == values_view(before).push(value@),
{
    assert(values_view(before.push(value)) =~= values_view(before).push(value@));
}

/// The empty list of values.
pub proof fn lemma_values_none()
    ensures
        values_view(Seq::<RuntimeValue>::empty()) == Seq::<Value>::empty(),
{
    assert(values_view(Seq::<RuntimeValue>::empty()) =~= Seq::<Value>::empty());
}

/// What a list of values is, item by item.
pub proof fn lemma_values_view(v: Seq<RuntimeValue>)
    ensures
        values_view(v).len() == v.len(),
        forall|i: int| 0 <= i < v.len() ==> #[trigger] values_view(v)[i] == v[i]@,
{
}

} // verus!
