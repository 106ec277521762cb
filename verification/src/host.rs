//! What passes between the interpreter and its host. The interpreter does
//! no input or output and no arithmetic on doubles: it asks its host with an
//! `Action` and takes the answer with the `Event` of the next step.

use crate::errors::{ErrorView, InterpretErrors};
use crate::value::{RuntimeValue, Value};
use vstd::prelude::*;

verus! {

/// The operations on doubles.
#[derive(Debug, Clone, Copy, PartialEq, Eq, Structural)]
pub enum FloatOp {
    Add,
    Sub,
    Mul,
    Div,
    Rem,
    Eq,
    Ne,
    Lt,
    Gt,
    Le,
    Ge,
}

/// The end of a program as contracts see it.
pub open spec fn outcome_view(r: Result<RuntimeValue, InterpretErrors>) -> Result<Value, ErrorView> {
    match r {
        Ok(v) => Ok(v@),
        Err(e) => Err(e@),
    }
}

/// A number handed to the host: an integer, or a double as its decimal text.
#[derive(Debug, PartialEq)]
pub enum Num {
    Int(i64),
    Float(String),
}

/// A number for the host as contracts see it.
pub ghost enum NumView {
    Int(i64),
    Float(Seq<char>),
}

impl View for Num {
    type V = NumView;

    open spec fn view(&self) -> NumView {
        match self {
            Num::Int(x0) => NumView::Int(*x0),
            Num::Float(x0) => NumView::Float(x0@),
        }
    }
}

impl Clone for Num {
    fn clone(&self) -> (r: Self)
        ensures
            r@ == self@,
    {
        match self {
            Num::Int(x0) => Num::Int(*x0),
            Num::Float(x0) => Num::Float(x0.clone()),
        }
    }
}

/// Work on doubles, which the host does for the interpreter.
#[derive(Debug, PartialEq)]
pub enum FloatTask {
    /// The double that the digits of a literal denote. The answer is a double.
    Literal(String),
    /// The double that a string denotes. The answer is a double, or a failure.
    Parse(String),
    /// The double nearest to an integer. The answer is a double.
    FromInt(i64),
    /// A double cut to an integer, toward zero. The answer is an integer.
    ToInt(String),
    /// An operation on two numbers, where an integer counts as the double nearest to it. The answer is a double for arithmetic, and a truth value for a comparison.
    Binary { op: FloatOp, left: Num, right: Num },
}

/// Work on doubles as contracts see it.
pub ghost enum FloatTaskView {
    Literal(Seq<char>),
    Parse(Seq<char>),
    FromInt(i64),
    ToInt(Seq<char>),
    Binary { op: FloatOp, left: NumView, right: NumView },
}

impl View for FloatTask {
    type V = FloatTaskView;

    open spec fn view(&self) -> FloatTaskView {
        match self {
            FloatTask::Literal(x0) => FloatTaskView::Literal(x0@),
            FloatTask::Parse(x0) => FloatTaskView::Parse(x0@),
            FloatTask::FromInt(x0) => FloatTaskView::FromInt(*x0),
            FloatTask::ToInt(x0) => FloatTaskView::ToInt(x0@),
            FloatTask::Binary { op, left, right } => FloatTaskView::Binary {
                op: *op,
                left: left@,
                right: right@,
            },
        }
    }
}

impl Clone for FloatTask {
    fn clone(&self) -> (r: Self)
        ensures
            r@ == self@,
    {
        match self {
            FloatTask::Literal(x0) => FloatTask::Literal(x0.clone()),
            FloatTask::Parse(x0) => FloatTask::Parse(x0.clone()),
            FloatTask::FromInt(x0) => FloatTask::FromInt(*x0),
            FloatTask::ToInt(x0) => FloatTask::ToInt(x0.clone()),
            FloatTask::Binary { op, left, right } => FloatTask::Binary {
                op: *op,
                left: left.clone(),
                right: right.clone(),
            },
        }
    }
}

impl FloatTask {
    /// The double that the digits of a literal denote. The answer is a double.
    pub fn literal(text: String) -> (r: FloatTask)
        ensures
            r@ == FloatTaskView::Literal(text@),
    {
        FloatTask::Literal(text)
    }

    /// The double that a string denotes. The answer is a double, or a failure.
    pub fn parse(text: String) -> (r: FloatTask)
        ensures
            r@ == FloatTaskView::Parse(text@),
    {
        FloatTask::Parse(text)
    }

    /// The double nearest to an integer. The answer is a double.
    pub fn from_int(number: i64) -> (r: FloatTask)
        ensures
            r@ == FloatTaskView::FromInt(number),
    {
        FloatTask::FromInt(number)
    }

    /// A double cut to an integer, toward zero. The answer is an integer.
    pub fn to_int(text: String) -> (r: FloatTask)
        ensures
            r@ == FloatTaskView::ToInt(text@),
    {
        FloatTask::ToInt(text)
    }

    /// An operation on two numbers, where an integer counts as the double nearest to it. The answer is a double for arithmetic, and a truth value for a comparison.
    pub fn binary(op: FloatOp, left: Num, right: Num) -> (r: FloatTask)
        ensures
            r@ == (FloatTaskView::Binary { op: op, left: left@, right: right@ }),
    {
        FloatTask::Binary { op, left, right }
    }
}

/// What the host reports to the interpreter with a step.
#[derive(Debug, PartialEq)]
pub enum Event {
    /// Nothing: the last action asked for no answer.
    Resume,
    /// The line that was read.
    Line(String),
    /// The text of the file that was read.
    Source(String),
    /// The request could not be met, and why.
    Failed(String),
    /// A double, as the shortest decimal text that reads back as the same double.
    Float(String),
    /// A truth value.
    Boolean(bool),
    /// An integer.
    Number(i64),
}

/// An event as contracts see it.
pub ghost enum EventView {
    Resume,
    Line(Seq<char>),
    Source(Seq<char>),
    Failed(Seq<char>),
    Float(Seq<char>),
    Boolean(bool),
    Number(i64),
}

impl View for Event {
    type V = EventView;

    open spec fn view(&self) -> EventView {
        match self {
            Event::Resume => EventView::Resume,
            Event::Line(x0) => EventView::Line(x0@),
            Event::Source(x0) => EventView::Source(x0@),
            Event::Failed(x0) => EventView::Failed(x0@),
            Event::Float(x0) => EventView::Float(x0@),
            Event::Boolean(x0) => EventView::Boolean(*x0),
            Event::Number(x0) => EventView::Number(*x0),
        }
    }
}

/// What the interpreter asks of its host after a step.
#[derive(Debug, PartialEq)]
pub enum Action {
    /// Nothing: step again, with `Event::Resume`.
    Continue,
    /// Write the line to standard output, with a line end; then step with `Event::Resume`.
    Print(String),
    /// Write the prompt without a line end, read one line, and step with `Event::Line`.
    Input(String),
    /// Wait that many milliseconds; then step with `Event::Resume`.
    Sleep(Num),
    /// Read the file at the path, and step with `Event::Source` or `Event::Failed`.
    Import(String),
    /// Do the work on doubles, and step with its answer.
    Compute(FloatTask),
    /// The program has ended, with its value or its failure.
    Done(Result<RuntimeValue, InterpretErrors>),
}

/// An action as contracts see it.
pub ghost enum ActionView {
    Continue,
    Print(Seq<char>),
    Input(Seq<char>),
    Sleep(NumView),
    Import(Seq<char>),
    Compute(FloatTaskView),
    Done(Result<Value, ErrorView>),
}

impl View for Action {
    type V = ActionView;

    open spec fn view(&self) -> ActionView {
        match self {
            Action::Continue => ActionView::Continue,
            Action::Print(x0) => ActionView::Print(x0@),
            Action::Input(x0) => ActionView::Input(x0@),
            Action::Sleep(x0) => ActionView::Sleep(x0@),
            Action::Import(x0) => ActionView::Import(x0@),
            Action::Compute(x0) => ActionView::Compute(x0@),
            Action::Done(x0) => ActionView::Done(outcome_view(*x0)),
        }
    }
}

impl Action {
    /// Nothing: step again, with `Event::Resume`.
    pub fn proceed() -> (r: Action)
        ensures
            r@ == ActionView::Continue,
    {
        Action::Continue
    }

    /// Write the line to standard output, with a line end; then step with `Event::Resume`.
    pub fn print(line: String) -> (r: Action)
        ensures
            r@ == ActionView::Print(line@),
    {
        Action::Print(line)
    }

    /// Write the prompt without a line end, read one line, and step with `Event::Line`.
    pub fn input(prompt: String) -> (r: Action)
        ensures
            r@ == ActionView::Input(prompt@),
    {
        Action::Input(prompt)
    }

    /// Wait that many milliseconds; then step with `Event::Resume`.
    pub fn sleep(duration: Num) -> (r: Action)
        ensures
            r@ == ActionView::Sleep(duration@),
    {
        Action::Sleep(duration)
    }

    /// Read the file at the path, and step with `Event::Source` or `Event::Failed`.
    pub fn import(path: String) -> (r: Action)
        ensures
            r@ == ActionView::Import(path@),
    {
        Action::Import(path)
    }

    /// Do the work on doubles, and step with its answer.
    pub fn compute(task: FloatTask) -> (r: Action)
        ensures
            r@ == ActionView::Compute(task@),
    {
        Action::Compute(task)
    }

    /// The program has ended, with its value or its failure.
    pub fn done(outcome: Result<RuntimeValue, InterpretErrors>) -> (r: Action)
        ensures
            r@ == ActionView::Done(outcome_view(outcome)),
    {
        Action::Done(outcome)
    }
}

} // verus!
