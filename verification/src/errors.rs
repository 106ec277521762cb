//! The failures of the interpreter.

use crate::ast::Type;
use crate::text::{decimal, display_count, display_int};
use vstd::prelude::*;

verus! {

/// Why a program stopped.
#[derive(Debug, PartialEq)]
pub enum InterpretErrors {
    /// A name that no binding holds.
    UndefinedVariable { name: String },
    /// A call of a function that was not declared.
    UndefinedFunction { name: String },
    /// A call with another number of arguments than the callee takes.
    ArityMismatch { name: String, expected: usize, got: usize },
    /// An assignment of a value of another kind than the binding holds.
    AssignMismatch { name: String },
    /// A declaration whose value is not of the declared type.
    DeclaredTypeMismatch { name: String },
    /// Two operands that no operator joins.
    BinaryMismatch,
    /// An operator that the operands do not support.
    UnknownOperator { op: String },
    /// A condition that is neither a truth value nor an integer.
    ConditionMismatch,
    /// An index below zero or not below the length.
    IndexOutOfBounds { index: i64, len: usize },
    /// An index applied to something other than an array and an integer.
    NotIndexable,
    /// An assignment to something other than a name or an element.
    InvalidTarget,
    DivisionByZero,
    ModuloByZero,
    /// A conversion that the value does not support.
    UnsupportedConversion { target: Type },
    /// A method that the value does not have.
    UnsupportedMethod { method: String },
    /// A change to a constant.
    ConstViolation { name: String },
    /// A declaration of a name that is already bound.
    Redeclaration { name: String },
    /// A `++` or `--` on something other than a name.
    StepTarget,
    /// A `++` or `--` on a binding that holds no integer.
    InvalidStep { op: String },
    /// A loop over a value that has no items.
    NotIterable,
    /// A bound of `random` that is no integer.
    RandomMismatch,
    /// A duration that is no number.
    SleepMismatch,
    /// A subject that is no string, or a pattern that is no regex.
    CompileMismatch,
    /// A pattern that does not compile.
    InvalidPattern { message: String },
    /// A file that could not be read, or whose text does not lex or parse.
    ImportFailed { path: String, message: String },
    /// An answer of the host that does not fit the request.
    UnexpectedReply,
    /// A step that found fewer operands than it takes.
    Exhausted,
}

/// A failure as contracts see it.
pub ghost enum ErrorView {
    UndefinedVariable { name: Seq<char> },
    UndefinedFunction { name: Seq<char> },
    ArityMismatch { name: Seq<char>, expected: usize, got: usize },
    AssignMismatch { name: Seq<char> },
    DeclaredTypeMismatch { name: Seq<char> },
    BinaryMismatch,
    UnknownOperator { op: Seq<char> },
    ConditionMismatch,
    IndexOutOfBounds { index: i64, len: usize },
    NotIndexable,
    InvalidTarget,
    DivisionByZero,
    ModuloByZero,
    UnsupportedConversion { target: Type },
    UnsupportedMethod { method: Seq<char> },
    ConstViolation { name: Seq<char> },
    Redeclaration { name: Seq<char> },
    StepTarget,
    InvalidStep { op: Seq<char> },
    NotIterable,
    RandomMismatch,
    SleepMismatch,
    CompileMismatch,
    InvalidPattern { message: Seq<char> },
    ImportFailed { path: Seq<char>, message: Seq<char> },
    UnexpectedReply,
    Exhausted,
}

impl View for InterpretErrors {
    type V = ErrorView;

    open spec fn view(&self) -> ErrorView {
        match self {
            InterpretErrors::UndefinedVariable { name } => ErrorView::UndefinedVariable {
                name: name@,
            },
            InterpretErrors::UndefinedFunction { name } => ErrorView::UndefinedFunction {
                name: name@,
            },
            InterpretErrors::ArityMismatch { name, expected, got } => ErrorView::ArityMismatch {
                name: name@,
                expected: *expected,
                got: *got,
            },
            InterpretErrors::AssignMismatch { name } => ErrorView::AssignMismatch {
                name: name@,
            },
            InterpretErrors::DeclaredTypeMismatch { name } => ErrorView::DeclaredTypeMismatch {
                name: name@,
            },
            InterpretErrors::BinaryMismatch => ErrorView::BinaryMismatch,
            InterpretErrors::UnknownOperator { op } => ErrorView::UnknownOperator {
                op: op@,
            },
            InterpretErrors::ConditionMismatch => ErrorView::ConditionMismatch,
            InterpretErrors::IndexOutOfBounds { index, len } => ErrorView::IndexOutOfBounds {
                index: *index,
                len: *len,
            },
            InterpretErrors::NotIndexable => ErrorView::NotIndexable,
            InterpretErrors::InvalidTarget => ErrorView::InvalidTarget,
            InterpretErrors::DivisionByZero => ErrorView::DivisionByZero,
            InterpretErrors::ModuloByZero => ErrorView::ModuloByZero,
            InterpretErrors::UnsupportedConversion { target } => ErrorView::UnsupportedConversion {
                target: *target,
            },
            InterpretErrors::UnsupportedMethod { method } => ErrorView::UnsupportedMethod {
                method: method@,
            },
            InterpretErrors::ConstViolation { name } => ErrorView::ConstViolation {
                name: name@,
            },
            InterpretErrors::Redeclaration { name } => ErrorView::Redeclaration {
                name: name@,
            },
            InterpretErrors::StepTarget => ErrorView::StepTarget,
            InterpretErrors::InvalidStep { op } => ErrorView::InvalidStep {
                op: op@,
            },
            InterpretErrors::NotIterable => ErrorView::NotIterable,
            InterpretErrors::RandomMismatch => ErrorView::RandomMismatch,
            InterpretErrors::SleepMismatch => ErrorView::SleepMismatch,
            InterpretErrors::CompileMismatch => ErrorView::CompileMismatch,
            InterpretErrors::InvalidPattern { message } => ErrorView::InvalidPattern {
                message: message@,
            },
            InterpretErrors::ImportFailed { path, message } => ErrorView::ImportFailed {
                path: path@,
                message: message@,
            },
            InterpretErrors::UnexpectedReply => ErrorView::UnexpectedReply,
            InterpretErrors::Exhausted => ErrorView::Exhausted,
        }
    }
}

impl InterpretErrors {
    /// A name that no binding holds.
    pub fn undefined_variable(name: String) -> (r: InterpretErrors)
        ensures
            r@ == (ErrorView::UndefinedVariable { name: name@ }),
    {
        InterpretErrors::UndefinedVariable { name }
    }

    /// A call of a function that was not declared.
    pub fn undefined_function(name: String) -> (r: InterpretErrors)
        ensures
            r@ == (ErrorView::UndefinedFunction { name: name@ }),
    {
        InterpretErrors::UndefinedFunction { name }
    }

    /// A call with another number of arguments than the callee takes.
    pub fn arity_mismatch(name: String, expected: usize, got: usize) -> (r: InterpretErrors)
        ensures
            r@ == (ErrorView::ArityMismatch { name: name@, expected: expected, got: got }),
    {
        InterpretErrors::ArityMismatch { name, expected, got }
    }

    /// An assignment of a value of another kind than the binding holds.
    pub fn assign_mismatch(name: String) -> (r: InterpretErrors)
        ensures
            r@ == (ErrorView::AssignMismatch { name: name@ }),
    {
        InterpretErrors::AssignMismatch { name }
    }

    /// A declaration whose value is not of the declared type.
    pub fn declared_type_mismatch(name: String) -> (r: InterpretErrors)
        ensures
            r@ == (ErrorView::DeclaredTypeMismatch { name: name@ }),
    {
        InterpretErrors::DeclaredTypeMismatch { name }
    }

    /// Two operands that no operator joins.
    pub fn binary_mismatch() -> (r: InterpretErrors)
        ensures
            r@ == ErrorView::BinaryMismatch,
    {
        InterpretErrors::BinaryMismatch
    }

    /// An operator that the operands do not support.
    pub fn unknown_operator(op: String) -> (r: InterpretErrors)
        ensures
            r@ == (ErrorView::UnknownOperator { op: op@ }),
    {
        InterpretErrors::UnknownOperator { op }
    }

    /// A condition that is neither a truth value nor an integer.
    pub fn condition_mismatch() -> (r: InterpretErrors)
        ensures
            r@ == ErrorView::ConditionMismatch,
    {
        InterpretErrors::ConditionMismatch
    }

    /// An index below zero or not below the length.
    pub fn index_out_of_bounds(index: i64, len: usize) -> (r: InterpretErrors)
        ensures
            r@ == (ErrorView::IndexOutOfBounds { index: index, len: len }),
    {
        InterpretErrors::IndexOutOfBounds { index, len }
    }

    /// An index applied to something other than an array and an integer.
    pub fn not_indexable() -> (r: InterpretErrors)
        ensures
            r@ == ErrorView::NotIndexable,
    {
        InterpretErrors::NotIndexable
    }

    /// An assignment to something other than a name or an element.
    pub fn invalid_target() -> (r: InterpretErrors)
        ensures
            r@ == ErrorView::InvalidTarget,
    {
        InterpretErrors::InvalidTarget
    }

    /// The variant `DivisionByZero`.
    pub fn division_by_zero() -> (r: InterpretErrors)
        ensures
            r@ == ErrorView::DivisionByZero,
    {
        InterpretErrors::DivisionByZero
    }

    /// The variant `ModuloByZero`.
    pub fn modulo_by_zero() -> (r: InterpretErrors)
        ensures
            r@ == ErrorView::ModuloByZero,
    {
        InterpretErrors::ModuloByZero
    }

    /// A conversion that the value does not support.
    pub fn unsupported_conversion(target: Type) -> (r: InterpretErrors)
        ensures
            r@ == (ErrorView::UnsupportedConversion { target: target }),
    {
        InterpretErrors::UnsupportedConversion { target }
    }

    /// A method that the value does not have.
    pub fn unsupported_method(method: String) -> (r: InterpretErrors)
        ensures
            r@ == (ErrorView::UnsupportedMethod { method: method@ }),
    {
        InterpretErrors::UnsupportedMethod { method }
    }

    /// A change to a constant.
    pub fn const_violation(name: String) -> (r: InterpretErrors)
        ensures
            r@ == (ErrorView::ConstViolation { name: name@ }),
    {
        InterpretErrors::ConstViolation { name }
    }

    /// A declaration of a name that is already bound.
    pub fn redeclaration(name: String) -> (r: InterpretErrors)
        ensures
            r@ == (ErrorView::Redeclaration { name: name@ }),
    {
        InterpretErrors::Redeclaration { name }
    }

    /// A `++` or `--` on something other than a name.
    pub fn step_target() -> (r: InterpretErrors)
        ensures
            r@ == ErrorView::StepTarget,
    {
        InterpretErrors::StepTarget
    }

    /// A `++` or `--` on a binding that holds no integer.
    pub fn invalid_step(op: String) -> (r: InterpretErrors)
        ensures
            r@ == (ErrorView::InvalidStep { op: op@ }),
    {
        InterpretErrors::InvalidStep { op }
    }

    /// A loop over a value that has no items.
    pub fn not_iterable() -> (r: InterpretErrors)
        ensures
            r@ == ErrorView::NotIterable,
    {
        InterpretErrors::NotIterable
    }

    /// A bound of `random` that is no integer.
    pub fn random_mismatch() -> (r: InterpretErrors)
        ensures
            r@ == ErrorView::RandomMismatch,
    {
        InterpretErrors::RandomMismatch
    }

    /// A duration that is no number.
    pub fn sleep_mismatch() -> (r: InterpretErrors)
        ensures
            r@ == ErrorView::SleepMismatch,
    {
        InterpretErrors::SleepMismatch
    }

    /// A subject that is no string, or a pattern that is no regex.
    pub fn compile_mismatch() -> (r: InterpretErrors)
        ensures
            r@ == ErrorView::CompileMismatch,
    {
        InterpretErrors::CompileMismatch
    }

    /// A pattern that does not compile.
    pub fn invalid_pattern(message: String) -> (r: InterpretErrors)
        ensures
            r@ == (ErrorView::InvalidPattern { message: message@ }),
    {
        InterpretErrors::InvalidPattern { message }
    }

    /// A file that could not be read, or whose text does not lex or parse.
    pub fn import_failed(path: String, message: String) -> (r: InterpretErrors)
        ensures
            r@ == (ErrorView::ImportFailed { path: path@, message: message@ }),
    {
        InterpretErrors::ImportFailed { path, message }
    }

    /// An answer of the host that does not fit the request.
    pub fn unexpected_reply() -> (r: InterpretErrors)
        ensures
            r@ == ErrorView::UnexpectedReply,
    {
        InterpretErrors::UnexpectedReply
    }

    /// A step that found fewer operands than it takes.
    pub fn exhausted() -> (r: InterpretErrors)
        ensures
            r@ == ErrorView::Exhausted,
    {
        InterpretErrors::Exhausted
    }
}

/// The word for a type.
pub open spec fn type_text(t: Type) -> Seq<char> {
    match t {
        Type::Int => "int"@,
        Type::Float => "float"@,
        Type::Bool => "bool"@,
        Type::String => "string"@,
        Type::Array => "array"@,
        Type::Void => "void"@,
    }
}

/// The word for a type.
pub fn type_word(t: Type) -> (r: &'static str)
    ensures
        r@ == type_text(t),
{
    match t {
        Type::Int => "int",
        Type::Float => "float",
        Type::Bool => "bool",
        Type::String => "string",
        Type::Array => "array",
        Type::Void => "void",
    }
}

/// What a failure says.
pub open spec fn message_text(e: ErrorView) -> Seq<char> {
    match e {
        ErrorView::UndefinedVariable { name } => "Undefined variable: "@ + name,
        ErrorView::UndefinedFunction { name } => "Undefined function: "@ + name,
        ErrorView::ArityMismatch { name, expected, got } => "Function "@ + name + " expects "@ + decimal(expected as int) + " arguments, got "@ + decimal(got as int),
        ErrorView::AssignMismatch { name } => "Type mismatch for variable "@ + name,
        ErrorView::DeclaredTypeMismatch { name } => "Value does not match declared type for variable "@ + name,
        ErrorView::BinaryMismatch => "Type mismatch in binary operation"@,
        ErrorView::UnknownOperator { op } => "Unknown operator: "@ + op,
        ErrorView::ConditionMismatch => "Condition must be boolean"@,
        ErrorView::IndexOutOfBounds { index, len } => "Index "@ + decimal(index as int) + " out of bounds for array of length "@ + decimal(len as int),
        ErrorView::NotIndexable => "Indexing only supported for arrays with numeric indices"@,
        ErrorView::InvalidTarget => "Assignment to non-identifier or non-index"@,
        ErrorView::DivisionByZero => "Division by zero"@,
        ErrorView::ModuloByZero => "Modulo by zero"@,
        ErrorView::UnsupportedConversion { target } => "Cannot convert value to "@ + type_text(target),
        ErrorView::UnsupportedMethod { method } => "Method "@ + method + " not supported for this type"@,
        ErrorView::ConstViolation { name } => "Cannot reassign constant "@ + name,
        ErrorView::Redeclaration { name } => "Variable "@ + name + " is already declared"@,
        ErrorView::StepTarget => "++/-- can only be applied to variables"@,
        ErrorView::InvalidStep { op } => "Invalid operation "@ + op + " for type"@,
        ErrorView::NotIterable => "for..in can only iterate over arrays, numbers and strings"@,
        ErrorView::RandomMismatch => "Random range requires numbers"@,
        ErrorView::SleepMismatch => "Sleep function expects a number (milliseconds)"@,
        ErrorView::CompileMismatch => "Expected a string and a regex pattern"@,
        ErrorView::InvalidPattern { message } => "Invalid regex pattern: "@ + message,
        ErrorView::ImportFailed { path, message } => "Cannot import "@ + path + ": "@ + message,
        ErrorView::UnexpectedReply => "Unexpected reply of the host"@,
        ErrorView::Exhausted => "Evaluation stack exhausted"@,
    }
}

impl InterpretErrors {
    /// What the failure says.
    pub fn message(&self) -> (r: String)
        ensures
            r@ == message_text(self@),
    {
        match self {
            InterpretErrors::UndefinedVariable { name } => {
                let mut out = "Undefined variable: ".to_owned();
                out.append(name.as_str());
                out
            },
            InterpretErrors::UndefinedFunction { name } => {
                let mut out = "Undefined function: ".to_owned();
                out.append(name.as_str());
                out
            },
            InterpretErrors::ArityMismatch { name, expected, got } => {
                let mut out = "Function ".to_owned();
                out.append(name.as_str());
                out.append(" expects ");
                out.append(display_count(*expected).as_str());
                out.append(" arguments, got ");
                out.append(display_count(*got).as_str());
                out
            },
            InterpretErrors::AssignMismatch { name } => {
                let mut out = "Type mismatch for variable ".to_owned();
                out.append(name.as_str());
                out
            },
            InterpretErrors::DeclaredTypeMismatch { name } => {
                let mut out = "Value does not match declared type for variable ".to_owned();
                out.append(name.as_str());
                out
            },
            InterpretErrors::BinaryMismatch => "Type mismatch in binary operation".to_owned(),
            InterpretErrors::UnknownOperator { op } => {
                let mut out = "Unknown operator: ".to_owned();
                out.append(op.as_str());
                out
            },
            InterpretErrors::ConditionMismatch => "Condition must be boolean".to_owned(),
            InterpretErrors::IndexOutOfBounds { index, len } => {
                let mut out = "Index ".to_owned();
                out.append(display_int(*index).as_str());
                out.append(" out of bounds for array of length ");
                out.append(display_count(*len).as_str());
                out
            },
            InterpretErrors::NotIndexable => "Indexing only supported for arrays with numeric indices".to_owned(),
            InterpretErrors::InvalidTarget => "Assignment to non-identifier or non-index".to_owned(),
            InterpretErrors::DivisionByZero => "Division by zero".to_owned(),
            InterpretErrors::ModuloByZero => "Modulo by zero".to_owned(),
            InterpretErrors::UnsupportedConversion { target } => {
                let mut out = "Cannot convert value to ".to_owned();
                out.append(type_word(*target));
                out
            },
            InterpretErrors::UnsupportedMethod { method } => {
                let mut out = "Method ".to_owned();
                out.append(method.as_str());
                out.append(" not supported for this type");
                out
            },
            InterpretErrors::ConstViolation { name } => {
                let mut out = "Cannot reassign constant ".to_owned();
                out.append(name.as_str());
                out
            },
            InterpretErrors::Redeclaration { name } => {
                let mut out = "Variable ".to_owned();
                out.append(name.as_str());
                out.append(" is already declared");
                out
            },
            InterpretErrors::StepTarget => "++/-- can only be applied to variables".to_owned(),
            InterpretErrors::InvalidStep { op } => {
                let mut out = "Invalid operation ".to_owned();
                out.append(op.as_str());
                out.append(" for type");
                out
            },
            InterpretErrors::NotIterable => "for..in can only iterate over arrays, numbers and strings".to_owned(),
            InterpretErrors::RandomMismatch => "Random range requires numbers".to_owned(),
            InterpretErrors::SleepMismatch => "Sleep function expects a number (milliseconds)".to_owned(),
            InterpretErrors::CompileMismatch => "Expected a string and a regex pattern".to_owned(),
            InterpretErrors::InvalidPattern { message } => {
                let mut out = "Invalid regex pattern: ".to_owned();
                out.append(message.as_str());
                out
            },
            InterpretErrors::ImportFailed { path, message } => {
                let mut out = "Cannot import ".to_owned();
                out.append(path.as_str());
                out.append(": ");
                out.append(message.as_str());
                out
            },
            InterpretErrors::UnexpectedReply => "Unexpected reply of the host".to_owned(),
            InterpretErrors::Exhausted => "Evaluation stack exhausted".to_owned(),
        }
    }
}

} // verus!
