//! The grammar, as functions from a token list and a position to the node
//! that starts there and the position after it. The parser is proved to
//! compute exactly these.

use crate::ast::{Ast, ParamView, Type};
use crate::text::{int_of_text, is_decimal};
use vstd::prelude::*;

verus! {

/// A token list as contracts see it: pairs of kind and lexeme.
pub type Tokens = Seq<(Seq<char>, Seq<char>)>;

/// A parser diagnostic as contracts see it. Positions count tokens.
pub ghost enum ParseErr {
    SyntaxError { pos: usize, expected: Seq<char>, found: Seq<char> },
    UnexpectedEof { pos: usize },
    TypeError { expected: Seq<char>, actual: Seq<char>, context: Seq<char> },
    NotImplemented { function: Seq<char>, node_info: Seq<char>, pos: usize },
    UnexpectedToken { token_type: Seq<char>, token_value: Seq<char>, pos: usize },
}

/// What a grammar function gives: a result and the position after it.
pub type Parsed<T> = Result<(T, int), ParseErr>;

/// Whether the token at `pos` has kind `kind`.
pub open spec fn at(toks: Tokens, pos: int, kind: Seq<char>) -> bool {
    0 <= pos < toks.len() && toks[pos].0 == kind
}

/// Whether the token at `pos` has kind `kind` and lexeme `word`.
pub open spec fn at_word(toks: Tokens, pos: int, kind: Seq<char>, word: Seq<char>) -> bool {
    at(toks, pos, kind) && toks[pos].1 == word
}

/// Whether a token stands at `pos`, of another kind than `kind`.
pub open spec fn before(toks: Tokens, pos: int, kind: Seq<char>) -> bool {
    0 <= pos < toks.len() && toks[pos].0 != kind
}

/// The lexeme of the token at `pos`, which must have kind `kind`.
pub open spec fn expect(toks: Tokens, pos: int, kind: Seq<char>) -> Parsed<Seq<char>> {
    if 0 <= pos < toks.len() {
        if toks[pos].0 == kind {
            Ok((toks[pos].1, pos + 1))
        } else {
            Err(ParseErr::SyntaxError { pos: pos as usize, expected: kind, found: toks[pos].0 })
        }
    } else {
        Err(ParseErr::UnexpectedEof { pos: pos as usize })
    }
}

/// The diagnostic for a rule that would not move past `pos`. No token list
/// leads here: every rule consumes a token before it repeats.
pub open spec fn stalled(pos: int) -> ParseErr {
    ParseErr::NotImplemented { function: "parse"@, node_info: "no progress"@, pos: pos as usize }
}

/// The type that a word names.
pub open spec fn type_of_word(w: Seq<char>) -> Option<Type> {
    if w == "int"@ {
        Some(Type::Int)
    } else if w == "float"@ {
        Some(Type::Float)
    } else if w == "bool"@ {
        Some(Type::Bool)
    } else if w == "string"@ {
        Some(Type::String)
    } else if w == "array"@ {
        Some(Type::Array)
    } else if w == "void"@ {
        Some(Type::Void)
    } else {
        None
    }
}

/// The type of a literal, which a declaration without a type takes.
pub open spec fn literal_type(node: Ast) -> Option<Type> {
    match node {
        Ast::Array(_) => Some(Type::Array),
        Ast::String(_) => Some(Type::String),
        Ast::Number(_) => Some(Type::Int),
        Ast::Boolean(_) => Some(Type::Bool),
        Ast::Float(_) => Some(Type::Float),
        _ => None,
    }
}

/// Whether `op` is an operator of the additive level.
pub open spec fn is_additive(op: Seq<char>) -> bool {
    op == "+"@ || op == "-"@
}

/// Whether `op` is a postfix step.
pub open spec fn is_step(op: Seq<char>) -> bool {
    op == "++"@ || op == "--"@
}

/// Whether `op` is an operator of the multiplicative level.
pub open spec fn is_multiplicative(op: Seq<char>) -> bool {
    op == "*"@ || op == "/"@
}

/// Whether `op` is a comparison or a logical operator.
pub open spec fn is_comparison(op: Seq<char>) -> bool {
    op == "=="@ || op == "!="@ || op == "<"@ || op == ">"@ || op == "<="@ || op == ">="@ || op
        == "&&"@ || op == "||"@
}

/// A type name.
pub open spec fn g_type(toks: Tokens, pos: int) -> Parsed<Type> {
    match expect(toks, pos, "TYPES"@) {
        Err(e) => Err(e),
        Ok((w, p)) => match type_of_word(w) {
            Some(t) => Ok((t, p)),
            None => Err(
                ParseErr::TypeError { expected: "type"@, actual: w, context: "type name"@ },
            ),
        },
    }
}

/// A parameter: a name, and a type after a colon if there is one.
pub open spec fn g_param(toks: Tokens, pos: int) -> Parsed<ParamView> {
    match expect(toks, pos, "ID"@) {
        Err(e) => Err(e),
        Ok((name, p)) => if at(toks, p, "COLON"@) {
            match g_type(toks, p + 1) {
                Err(e) => Err(e),
                Ok((t, p2)) => Ok((ParamView { name, param_type: Some(t) }, p2)),
            }
        } else {
            Ok((ParamView { name, param_type: None }, p))
        },
    }
}

/// The parameters after the first, each after a comma, up to the closing
/// parenthesis or the end.
pub open spec fn g_params_more(toks: Tokens, pos: int, acc: Seq<ParamView>) -> Parsed<
    Seq<ParamView>,
>
    decreases toks.len() - pos,
{
    if before(toks, pos, "RPAREN"@) {
        match expect(toks, pos, "COMMA"@) {
            Err(e) => Err(e),
            Ok((_, p)) => match g_param(toks, p) {
                Err(e) => Err(e),
                Ok((param, p2)) => if pos < p2 <= toks.len() {
                    g_params_more(toks, p2, acc.push(param))
                } else {
                    Err(stalled(pos))
                },
            },
        }
    } else {
        Ok((acc, pos))
    }
}

/// The parameters of a function, after the opening parenthesis.
pub open spec fn g_params(toks: Tokens, pos: int) -> Parsed<Seq<ParamView>> {
    if before(toks, pos, "RPAREN"@) {
        match g_param(toks, pos) {
            Err(e) => Err(e),
            Ok((param, p)) => g_params_more(toks, p, seq![param]),
        }
    } else {
        Ok((Seq::empty(), pos))
    }
}

/// An expression of the lowest level: terms joined by `+` and `-`, postfix
/// `++` and `--`, and assignment, whose right side is a whole expression.
pub open spec fn g_expr(toks: Tokens, pos: int) -> Parsed<Ast>
    decreases toks.len() - pos, 9int,
{
    match g_term(toks, pos) {
        Err(e) => Err(e),
        Ok((node, p)) => if pos < p <= toks.len() {
            g_expr_rest(toks, p, node)
        } else {
            Err(stalled(pos))
        },
    }
}

/// What follows the first term of an expression.
pub open spec fn g_expr_rest(toks: Tokens, pos: int, node: Ast) -> Parsed<Ast>
    decreases toks.len() - pos, 0int,
{
    if at(toks, pos, "OP"@) && is_additive(toks[pos].1) {
        match g_term(toks, pos + 1) {
            Err(e) => Err(e),
            Ok((right, p)) => if pos < p <= toks.len() {
                g_expr_rest(
                    toks,
                    p,
                    Ast::BinaryOp { op: toks[pos].1, left: Box::new(node), right: Box::new(right) },
                )
            } else {
                Err(stalled(pos))
            },
        }
    } else if at(toks, pos, "OP"@) && is_step(toks[pos].1) {
        g_expr_rest(toks, pos + 1, Ast::UnaryOpTT { op: toks[pos].1, var: Box::new(node) })
    } else if at(toks, pos, "ASSIGN"@) {
        match g_expr(toks, pos + 1) {
            Err(e) => Err(e),
            Ok((right, p)) => if pos < p <= toks.len() {
                g_expr_rest(
                    toks,
                    p,
                    Ast::Assign { left: Box::new(node), right: Box::new(right) },
                )
            } else {
                Err(stalled(pos))
            },
        }
    } else {
        Ok((node, pos))
    }
}

/// A term: comparisons joined by `*` and `/`.
pub open spec fn g_term(toks: Tokens, pos: int) -> Parsed<Ast>
    decreases toks.len() - pos, 8int,
{
    match g_comparison(toks, pos) {
        Err(e) => Err(e),
        Ok((node, p)) => if pos < p <= toks.len() {
            g_term_rest(toks, p, node)
        } else {
            Err(stalled(pos))
        },
    }
}

/// What follows the first comparison of a term.
pub open spec fn g_term_rest(toks: Tokens, pos: int, node: Ast) -> Parsed<Ast>
    decreases toks.len() - pos, 0int,
{
    if at(toks, pos, "OP"@) && is_multiplicative(toks[pos].1) {
        match g_comparison(toks, pos + 1) {
            Err(e) => Err(e),
            Ok((right, p)) => if pos < p <= toks.len() {
                g_term_rest(
                    toks,
                    p,
                    Ast::BinaryOp { op: toks[pos].1, left: Box::new(node), right: Box::new(right) },
                )
            } else {
                Err(stalled(pos))
            },
        }
    } else {
        Ok((node, pos))
    }
}

/// A comparison: factors joined by comparison and logical operators, which
/// share one level and group to the left.
pub open spec fn g_comparison(toks: Tokens, pos: int) -> Parsed<Ast>
    decreases toks.len() - pos, 7int,
{
    match g_factor(toks, pos) {
        Err(e) => Err(e),
        Ok((node, p)) => if pos < p <= toks.len() {
            g_comparison_rest(toks, p, node)
        } else {
            Err(stalled(pos))
        },
    }
}

/// What follows the first factor of a comparison.
pub open spec fn g_comparison_rest(toks: Tokens, pos: int, node: Ast) -> Parsed<Ast>
    decreases toks.len() - pos, 0int,
{
    if at(toks, pos, "OP"@) && is_comparison(toks[pos].1) {
        match g_factor(toks, pos + 1) {
            Err(e) => Err(e),
            Ok((right, p)) => if pos < p <= toks.len() {
                g_comparison_rest(
                    toks,
                    p,
                    Ast::BinaryOp { op: toks[pos].1, left: Box::new(node), right: Box::new(right) },
                )
            } else {
                Err(stalled(pos))
            },
        }
    } else {
        Ok((node, pos))
    }
}

/// A factor: a base, and after most bases any run of index and method-call
/// suffixes.
pub open spec fn g_factor(toks: Tokens, pos: int) -> Parsed<Ast>
    decreases toks.len() - pos, 6int,
{
    match g_base(toks, pos) {
        Err(e) => Err(e),
        Ok(((node, open), p)) => if open {
            if pos < p <= toks.len() {
                g_suffix(toks, p, node)
            } else {
                Err(stalled(pos))
            }
        } else {
            Ok((node, p))
        },
    }
}

/// The suffixes of a factor: `[index]` and `.method(args)`, in any order.
pub open spec fn g_suffix(toks: Tokens, pos: int, node: Ast) -> Parsed<Ast>
    decreases toks.len() - pos, 0int,
{
    if at(toks, pos, "LBRACKET"@) {
        match g_expr(toks, pos + 1) {
            Err(e) => Err(e),
            Ok((index, p)) => match expect(toks, p, "RBRACKET"@) {
                Err(e) => Err(e),
                Ok((_, p2)) => if pos < p2 <= toks.len() {
                    g_suffix(
                        toks,
                        p2,
                        Ast::Index { array: Box::new(node), index: Box::new(index) },
                    )
                } else {
                    Err(stalled(pos))
                },
            },
        }
    } else if at(toks, pos, "DOT"@) {
        match expect(toks, pos + 1, "ID"@) {
            Err(e) => Err(e),
            Ok((method, p)) => match expect(toks, p, "LPAREN"@) {
                Err(e) => Err(e),
                Ok((_, p2)) => match g_method_args(toks, p2) {
                    Err(e) => Err(e),
                    Ok((args, p3)) => match expect(toks, p3, "RPAREN"@) {
                        Err(e) => Err(e),
                        Ok((_, p4)) => if pos < p4 <= toks.len() {
                            g_suffix(
                                toks,
                                p4,
                                Ast::MethodCall { object: Box::new(node), method, args },
                            )
                        } else {
                            Err(stalled(pos))
                        },
                    },
                },
            },
        }
    } else {
        Ok((node, pos))
    }
}

/// The arguments of a method call, after the opening parenthesis: none, or
/// expressions with a comma between each two.
pub open spec fn g_method_args(toks: Tokens, pos: int) -> Parsed<Seq<Ast>>
    decreases toks.len() - pos, 11int,
{
    if before(toks, pos, "RPAREN"@) {
        match g_expr(toks, pos) {
            Err(e) => Err(e),
            Ok((first, p)) => if pos < p <= toks.len() {
                g_comma_items(toks, p, seq![first])
            } else {
                Err(stalled(pos))
            },
        }
    } else {
        Ok((Seq::empty(), pos))
    }
}

/// Further expressions, each after a comma, as long as a comma stands next.
pub open spec fn g_comma_items(toks: Tokens, pos: int, acc: Seq<Ast>) -> Parsed<Seq<Ast>>
    decreases toks.len() - pos, 0int,
{
    if at(toks, pos, "COMMA"@) {
        match g_expr(toks, pos + 1) {
            Err(e) => Err(e),
            Ok((item, p)) => if pos < p <= toks.len() {
                g_comma_items(toks, p, acc.push(item))
            } else {
                Err(stalled(pos))
            },
        }
    } else {
        Ok((acc, pos))
    }
}

/// The arguments of a function call, after the opening parenthesis:
/// expressions up to the closing parenthesis or the end, where a comma
/// after an expression is skipped.
pub open spec fn g_call_args(toks: Tokens, pos: int, acc: Seq<Ast>) -> Parsed<Seq<Ast>>
    decreases toks.len() - pos, 10int,
{
    if before(toks, pos, "RPAREN"@) {
        match g_expr(toks, pos) {
            Err(e) => Err(e),
            Ok((arg, p)) => if pos < p <= toks.len() {
                if at(toks, p, "COMMA"@) {
                    g_call_args(toks, p + 1, acc.push(arg))
                } else {
                    g_call_args(toks, p, acc.push(arg))
                }
            } else {
                Err(stalled(pos))
            },
        }
    } else {
        Ok((acc, pos))
    }
}

/// The items of an array literal after the first, each after a comma, up to
/// the closing bracket or the end.
pub open spec fn g_array_more(toks: Tokens, pos: int, acc: Seq<Ast>) -> Parsed<Seq<Ast>>
    decreases toks.len() - pos, 0int,
{
    if before(toks, pos, "RBRACKET"@) {
        match expect(toks, pos, "COMMA"@) {
            Err(e) => Err(e),
            Ok((_, p)) => match g_expr(toks, p) {
                Err(e) => Err(e),
                Ok((item, p2)) => if pos < p2 <= toks.len() {
                    g_array_more(toks, p2, acc.push(item))
                } else {
                    Err(stalled(pos))
                },
            },
        }
    } else {
        Ok((acc, pos))
    }
}

/// An array literal.
pub open spec fn g_array(toks: Tokens, pos: int) -> Parsed<Ast>
    decreases toks.len() - pos, 4int,
{
    match expect(toks, pos, "LBRACKET"@) {
        Err(e) => Err(e),
        Ok((_, p)) => {
            let items = if before(toks, p, "RBRACKET"@) {
                match g_expr(toks, p) {
                    Err(e) => Err(e),
                    Ok((first, p2)) => if p < p2 <= toks.len() {
                        g_array_more(toks, p2, seq![first])
                    } else {
                        Err(stalled(p))
                    },
                }
            } else {
                Ok((Seq::empty(), p))
            };
            match items {
                Err(e) => Err(e),
                Ok((list, p3)) => match expect(toks, p3, "RBRACKET"@) {
                    Err(e) => Err(e),
                    Ok((_, p4)) => Ok((Ast::Array(list), p4)),
                },
            }
        },
    }
}

/// The statements of a block, up to the closing brace or the end.
pub open spec fn g_block_items(toks: Tokens, pos: int, acc: Seq<Ast>) -> Parsed<Seq<Ast>>
    decreases toks.len() - pos, 10int,
{
    if before(toks, pos, "RBRACE"@) {
        match g_expr(toks, pos) {
            Err(e) => Err(e),
            Ok((node, p)) => if pos < p <= toks.len() {
                g_block_items(toks, p, acc.push(node))
            } else {
                Err(stalled(pos))
            },
        }
    } else {
        Ok((acc, pos))
    }
}

/// A block: statements between braces.
pub open spec fn g_block(toks: Tokens, pos: int) -> Parsed<Seq<Ast>>
    decreases toks.len() - pos, 11int,
{
    match expect(toks, pos, "LBRACE"@) {
        Err(e) => Err(e),
        Ok((_, p)) => match g_block_items(toks, p, Seq::empty()) {
            Err(e) => Err(e),
            Ok((nodes, p2)) => match expect(toks, p2, "RBRACE"@) {
                Err(e) => Err(e),
                Ok((_, p3)) => Ok((nodes, p3)),
            },
        },
    }
}

/// An `else` and its block, if `else` stands next.
pub open spec fn g_optional_else(toks: Tokens, pos: int) -> Parsed<Option<Seq<Ast>>>
    decreases toks.len() - pos, 12int,
{
    if at_word(toks, pos, "KEYWORD"@, "else"@) {
        match g_block(toks, pos + 1) {
            Err(e) => Err(e),
            Ok((nodes, p)) => Ok((Some(nodes), p)),
        }
    } else {
        Ok((None, pos))
    }
}

/// One expression between parentheses.
pub open spec fn g_one_arg(toks: Tokens, pos: int) -> Parsed<Ast>
    decreases toks.len() - pos, 10int,
{
    match expect(toks, pos, "LPAREN"@) {
        Err(e) => Err(e),
        Ok((_, p)) => match g_expr(toks, p) {
            Err(e) => Err(e),
            Ok((node, p2)) => match expect(toks, p2, "RPAREN"@) {
                Err(e) => Err(e),
                Ok((_, p3)) => Ok((node, p3)),
            },
        },
    }
}

/// Two expressions between parentheses, with a comma between them.
pub open spec fn g_two_args(toks: Tokens, pos: int) -> Parsed<(Ast, Ast)>
    decreases toks.len() - pos, 10int,
{
    match expect(toks, pos, "LPAREN"@) {
        Err(e) => Err(e),
        Ok((_, p)) => match g_expr(toks, p) {
            Err(e) => Err(e),
            Ok((first, p2)) => match expect(toks, p2, "COMMA"@) {
                Err(e) => Err(e),
                Ok((_, p3)) => if pos < p3 <= toks.len() {
                    match g_expr(toks, p3) {
                        Err(e) => Err(e),
                        Ok((second, p4)) => match expect(toks, p4, "RPAREN"@) {
                            Err(e) => Err(e),
                            Ok((_, p5)) => Ok(((first, second), p5)),
                        },
                    }
                } else {
                    Err(stalled(pos))
                },
            },
        },
    }
}

/// A function declaration, after `func`. A return type is read and dropped.
pub open spec fn g_function(toks: Tokens, pos: int) -> Parsed<Ast>
    decreases toks.len() - pos, 13int,
{
    match expect(toks, pos, "ID"@) {
        Err(e) => Err(e),
        Ok((name, p)) => match expect(toks, p, "LPAREN"@) {
            Err(e) => Err(e),
            Ok((_, p2)) => match g_params(toks, p2) {
                Err(e) => Err(e),
                Ok((params, p3)) => match expect(toks, p3, "RPAREN"@) {
                    Err(e) => Err(e),
                    Ok((_, p4)) => {
                        let after = if at(toks, p4, "ARROW"@) {
                            match g_type(toks, p4 + 1) {
                                Err(e) => Err(e),
                                Ok((_, p5)) => Ok(((), p5)),
                            }
                        } else {
                            Ok(((), p4))
                        };
                        match after {
                            Err(e) => Err(e),
                            Ok((_, p6)) => if pos < p6 <= toks.len() {
                                match g_block(toks, p6) {
                                    Err(e) => Err(e),
                                    Ok((body, p7)) => Ok((Ast::Function { name, params, body }, p7)),
                                }
                            } else {
                                Err(stalled(pos))
                            },
                        }
                    },
                },
            },
        }
    }
}

/// A loop over the items of a value, after `(NAME in`.
pub open spec fn g_for_in(toks: Tokens, pos: int, var: Seq<char>) -> Parsed<Ast>
    decreases toks.len() - pos, 12int,
{
    match g_expr(toks, pos) {
        Err(e) => Err(e),
        Ok((iterable, p2)) => match expect(toks, p2, "RPAREN"@) {
            Err(e) => Err(e),
            Ok((_, p3)) => if pos < p3 <= toks.len() {
                match g_block(toks, p3) {
                    Err(e) => Err(e),
                    Ok((body, p4)) => Ok(
                        (Ast::ForIn { var, iterable: Box::new(iterable), body }, p4),
                    ),
                }
            } else {
                Err(stalled(pos))
            },
        },
    }
}

/// An expression and the comma after it.
pub open spec fn g_expr_comma(toks: Tokens, pos: int) -> Parsed<Ast>
    decreases toks.len() - pos, 10int,
{
    match g_expr(toks, pos) {
        Err(e) => Err(e),
        Ok((node, p)) => match expect(toks, p, "COMMA"@) {
            Err(e) => Err(e),
            Ok((_, p2)) => Ok((node, p2)),
        },
    }
}

/// The end of a loop with three expressions in its header: the third
/// expression, the closing parenthesis and the body.
pub open spec fn g_for_tail(toks: Tokens, pos: int, init: Ast, condition: Ast) -> Parsed<Ast>
    decreases toks.len() - pos, 11int,
{
    match g_one_closed(toks, pos) {
        Err(e) => Err(e),
        Ok((increment, p)) => if pos < p <= toks.len() {
            match g_block(toks, p) {
                Err(e) => Err(e),
                Ok((body, p2)) => Ok(
                    (
                        Ast::For {
                            init: Box::new(init),
                            condition: Box::new(condition),
                            increment: Box::new(increment),
                            body,
                        },
                        p2,
                    ),
                ),
            }
        } else {
            Err(stalled(pos))
        },
    }
}

/// An expression and the closing parenthesis after it.
pub open spec fn g_one_closed(toks: Tokens, pos: int) -> Parsed<Ast>
    decreases toks.len() - pos, 10int,
{
    match g_expr(toks, pos) {
        Err(e) => Err(e),
        Ok((node, p)) => match expect(toks, p, "RPAREN"@) {
            Err(e) => Err(e),
            Ok((_, p2)) => Ok((node, p2)),
        },
    }
}

/// A loop with three expressions in its header, after `(`.
pub open spec fn g_for_three(toks: Tokens, pos: int) -> Parsed<Ast>
    decreases toks.len() - pos, 12int,
{
    match g_expr_comma(toks, pos) {
        Err(e) => Err(e),
        Ok((init, p)) => if pos < p <= toks.len() {
            match g_expr_comma(toks, p) {
                Err(e) => Err(e),
                Ok((condition, p2)) => if p < p2 <= toks.len() {
                    g_for_tail(toks, p2, init, condition)
                } else {
                    Err(stalled(pos))
                },
            }
        } else {
            Err(stalled(pos))
        },
    }
}

/// A loop header and body, after `for`: `(NAME in EXPR)` or three
/// expressions with commas between them.
pub open spec fn g_for(toks: Tokens, pos: int) -> Parsed<Ast>
    decreases toks.len() - pos, 13int,
{
    match expect(toks, pos, "LPAREN"@) {
        Err(e) => Err(e),
        Ok((_, p)) => if at(toks, p, "ID"@) && at_word(toks, p + 1, "KEYWORD"@, "in"@) {
            g_for_in(toks, p + 2, toks[p].1)
        } else {
            g_for_three(toks, p)
        },
    }
}

/// A conversion, after `to`: a type, a comma and an expression between
/// parentheses.
pub open spec fn g_to(toks: Tokens, pos: int) -> Parsed<Ast>
    decreases toks.len() - pos, 13int,
{
    match expect(toks, pos, "LPAREN"@) {
        Err(e) => Err(e),
        Ok((_, p)) => match g_type(toks, p) {
            Err(e) => Err(e),
            Ok((types, p2)) => match expect(toks, p2, "COMMA"@) {
                Err(e) => Err(e),
                Ok((_, p3)) => if pos < p3 <= toks.len() {
                    match g_expr(toks, p3) {
                        Err(e) => Err(e),
                        Ok((expr, p4)) => match expect(toks, p4, "RPAREN"@) {
                            Err(e) => Err(e),
                            Ok((_, p5)) => Ok((Ast::ToType { types, expr: Box::new(expr) }, p5)),
                        },
                    }
                } else {
                    Err(stalled(pos))
                },
            },
        },
    }
}

/// A declaration, after `let`: a name, an optional type with an optional
/// `&` for a constant, `=` and the value. Without a type the value must be
/// a literal, whose type the declaration takes.
pub open spec fn g_let(toks: Tokens, pos: int) -> Parsed<Ast>
    decreases toks.len() - pos, 13int,
{
    match expect(toks, pos, "ID"@) {
        Err(e) => Err(e),
        Ok((name, p)) => {
            let header: Parsed<(Option<Type>, bool)> = if at(toks, p, "COLON"@) {
                match g_type(toks, p + 1) {
                    Err(e) => Err(e),
                    Ok((t, p2)) => if at_word(toks, p2, "OP"@, "&"@) {
                        Ok(((Some(t), true), p2 + 1))
                    } else {
                        Ok(((Some(t), false), p2))
                    },
                }
            } else {
                Ok(((None, false), p))
            };
            match header {
                Err(e) => Err(e),
                Ok(((declared, is_const), p3)) => match expect(toks, p3, "ASSIGN"@) {
                    Err(e) => Err(e),
                    Ok((_, p4)) => if pos < p4 <= toks.len() {
                        match g_expr(toks, p4) {
                            Err(e) => Err(e),
                            Ok((value, p5)) => {
                                let var_type = if declared is Some {
                                    declared
                                } else {
                                    literal_type(value)
                                };
                                if var_type is Some {
                                    Ok(
                                        (
                                            Ast::Let {
                                                name,
                                                is_const,
                                                var_type,
                                                var_value: Box::new(value),
                                            },
                                            p5,
                                        ),
                                    )
                                } else {
                                    Err(
                                        ParseErr::TypeError {
                                            expected: "literal"@,
                                            actual: "expression"@,
                                            context: name,
                                        },
                                    )
                                }
                            },
                        }
                    } else {
                        Err(stalled(pos))
                    },
                },
            }
        },
    }
}

/// What `?` makes of the condition before it: a block, and an `else` with
/// its block if there is one.
pub open spec fn g_question(toks: Tokens, pos: int, condition: Ast) -> Parsed<Ast>
    decreases toks.len() - pos, 13int,
{
    match g_block(toks, pos) {
        Err(e) => Err(e),
        Ok((body, p)) => if pos < p <= toks.len() {
            match g_optional_else(toks, p) {
                Err(e) => Err(e),
                Ok((else_body, p2)) => Ok(
                    (Ast::If { condition: Box::new(condition), body, else_body }, p2),
                ),
            }
        } else {
            Err(stalled(pos))
        },
    }
}

/// What starts with a name, after the name: a call, and after a call or the
/// bare name a `?` with its blocks. The flag says whether suffixes may
/// follow: only after the bare name.
pub open spec fn g_named(toks: Tokens, pos: int, name: Seq<char>) -> Parsed<(Ast, bool)>
    decreases toks.len() - pos, 16int,
{
    if at(toks, pos, "LPAREN"@) {
        match g_call_args(toks, pos + 1, Seq::empty()) {
            Err(e) => Err(e),
            Ok((args, p)) => match expect(toks, p, "RPAREN"@) {
                Err(e) => Err(e),
                Ok((_, p2)) => {
                    let call = Ast::FunctionCall { name, args };
                    if at_word(toks, p2, "OP"@, "?"@) {
                        if pos < p2 <= toks.len() {
                            match g_question(toks, p2 + 1, call) {
                                Err(e) => Err(e),
                                Ok((node, p3)) => Ok(((node, false), p3)),
                            }
                        } else {
                            Err(stalled(pos))
                        }
                    } else {
                        Ok(((call, false), p2))
                    }
                },
            },
        }
    } else if at_word(toks, pos, "OP"@, "?"@) {
        match g_question(toks, pos + 1, Ast::Identifier(name)) {
            Err(e) => Err(e),
            Ok((node, p)) => Ok(((node, false), p)),
        }
    } else {
        Ok(((Ast::Identifier(name), true), pos))
    }
}

/// What a keyword leads, after the keyword, which stood at `pos - 1`.
pub open spec fn g_keyword(toks: Tokens, pos: int, word: Seq<char>) -> Parsed<Ast>
    decreases toks.len() - pos, 15int,
{
    if word == "print"@ {
        match g_one_arg(toks, pos) {
            Err(e) => Err(e),
            Ok((node, p)) => Ok((Ast::Print { left: Box::new(node) }, p)),
        }
    } else if word == "let"@ {
        g_let(toks, pos)
    } else if word == "import"@ {
        match expect(toks, pos, "STRING"@) {
            Err(e) => Err(e),
            Ok((path, p)) => Ok((Ast::Import { path }, p)),
        }
    } else if word == "input"@ {
        match expect(toks, pos, "LPAREN"@) {
            Err(e) => Err(e),
            Ok((_, p)) => match expect(toks, p, "STRING"@) {
                Err(e) => Err(e),
                Ok((placeholder, p2)) => match expect(toks, p2, "RPAREN"@) {
                    Err(e) => Err(e),
                    Ok((_, p3)) => Ok((Ast::Input { placeholder }, p3)),
                },
            },
        }
    } else if word == "if"@ {
        match g_one_arg(toks, pos) {
            Err(e) => Err(e),
            Ok((condition, p)) => if pos < p <= toks.len() {
                g_question(toks, p, condition)
            } else {
                Err(stalled(pos))
            },
        }
    } else if word == "while"@ {
        match g_one_arg(toks, pos) {
            Err(e) => Err(e),
            Ok((condition, p)) => if pos < p <= toks.len() {
                match g_block(toks, p) {
                    Err(e) => Err(e),
                    Ok((body, p2)) => Ok(
                        (Ast::While { condition: Box::new(condition), body }, p2),
                    ),
                }
            } else {
                Err(stalled(pos))
            },
        }
    } else if word == "for"@ {
        g_for(toks, pos)
    } else {
        g_keyword_more(toks, pos, word)
    }
}

/// What the other keywords lead, after the keyword, which stood at
/// `pos - 1`.
pub open spec fn g_keyword_more(toks: Tokens, pos: int, word: Seq<char>) -> Parsed<Ast>
    decreases toks.len() - pos, 14int,
{
    if word == "random"@ {
        match g_two_args(toks, pos) {
            Err(e) => Err(e),
            Ok(((left, right), p)) => Ok(
                (Ast::Random { left: Box::new(left), right: Box::new(right) }, p),
            ),
        }
    } else if word == "return"@ {
        match g_expr(toks, pos) {
            Err(e) => Err(e),
            Ok((node, p)) => Ok((Ast::Return(Box::new(node)), p)),
        }
    } else if word == "del"@ {
        match g_one_arg(toks, pos) {
            Err(e) => Err(e),
            Ok((node, p)) => Ok((Ast::Delete(Box::new(node)), p)),
        }
    } else if word == "func"@ {
        g_function(toks, pos)
    } else if word == "to"@ {
        g_to(toks, pos)
    } else if word == "type"@ {
        match g_one_arg(toks, pos) {
            Err(e) => Err(e),
            Ok((node, p)) => Ok((Ast::TypeFunc { expr: Box::new(node) }, p)),
        }
    } else if word == "sleep"@ {
        match g_one_arg(toks, pos) {
            Err(e) => Err(e),
            Ok((node, p)) => Ok((Ast::Sleep { expr: Box::new(node) }, p)),
        }
    } else if word == "compile"@ {
        match g_two_args(toks, pos) {
            Err(e) => Err(e),
            Ok(((expr, regex), p)) => Ok(
                (Ast::Compile { expr: Box::new(expr), regex: Box::new(regex) }, p),
            ),
        }
    } else if word == "compile_all"@ {
        match g_two_args(toks, pos) {
            Err(e) => Err(e),
            Ok(((expr, regex), p)) => Ok(
                (Ast::CompileAll { expr: Box::new(expr), regex: Box::new(regex) }, p),
            ),
        }
    } else {
        Err(
            ParseErr::UnexpectedToken {
                token_type: "KEYWORD"@,
                token_value: word,
                pos: (pos - 1) as usize,
            },
        )
    }
}

/// The base of a factor: a literal, a parenthesized expression, an array, a
/// keyword-led form, or what starts with a name. The flag says whether
/// suffixes may follow.
pub open spec fn g_base(toks: Tokens, pos: int) -> Parsed<(Ast, bool)>
    decreases toks.len() - pos, 5int,
{
    if !(0 <= pos < toks.len()) {
        Err(ParseErr::UnexpectedEof { pos: pos as usize })
    } else {
        let kind = toks[pos].0;
        let word = toks[pos].1;
        if kind == "KEYWORD"@ {
            match g_keyword(toks, pos + 1, word) {
                Err(e) => Err(e),
                Ok((node, p)) => Ok(((node, true), p)),
            }
        } else if kind == "BOOL"@ {
            if word == "true"@ {
                Ok(((Ast::Boolean(true), true), pos + 1))
            } else if word == "false"@ {
                Ok(((Ast::Boolean(false), true), pos + 1))
            } else {
                Err(ParseErr::TypeError { expected: "bool"@, actual: word, context: "literal"@ })
            }
        } else if kind == "LPAREN"@ {
            match g_expr(toks, pos + 1) {
                Err(e) => Err(e),
                Ok((node, p)) => match expect(toks, p, "RPAREN"@) {
                    Err(e) => Err(e),
                    Ok((_, p2)) => Ok(((node, true), p2)),
                },
            }
        } else if kind == "LBRACKET"@ {
            match g_array(toks, pos) {
                Err(e) => Err(e),
                Ok((node, p)) => Ok(((node, true), p)),
            }
        } else if kind == "STRING"@ {
            Ok(((Ast::String(word), true), pos + 1))
        } else if kind == "REGEX"@ {
            Ok(((Ast::Regex(word), true), pos + 1))
        } else if kind == "NUMBER"@ {
            match int_of_text(word) {
                Some(n) => Ok(((Ast::Number(n), true), pos + 1)),
                None => Err(
                    ParseErr::TypeError { expected: "int"@, actual: word, context: "literal"@ },
                ),
            }
        } else if kind == "FLOAT"@ {
            if is_decimal(word) {
                Ok(((Ast::Float(word), true), pos + 1))
            } else {
                Err(ParseErr::TypeError { expected: "float"@, actual: word, context: "literal"@ })
            }
        } else if kind == "ID"@ {
            g_named(toks, pos + 1, word)
        } else {
            Err(ParseErr::UnexpectedToken { token_type: kind, token_value: word, pos: pos as usize })
        }
    }
}

/// The statements of a program from `pos` to the end of the tokens.
pub open spec fn g_program(toks: Tokens, pos: int, acc: Seq<Ast>) -> Result<Seq<Ast>, ParseErr>
    decreases toks.len() - pos,
{
    if 0 <= pos < toks.len() {
        match g_expr(toks, pos) {
            Err(e) => Err(e),
            Ok((node, p)) => if pos < p <= toks.len() {
                g_program(toks, p, acc.push(node))
            } else {
                Err(stalled(pos))
            },
        }
    } else {
        Ok(acc)
    }
}

/// The syntax tree of a token list, or the diagnostic at the first token
/// that does not fit.
pub open spec fn parse_tokens(toks: Tokens) -> Result<Seq<Ast>, ParseErr> {
    g_program(toks, 0, Seq::empty())
}

} // verus!
