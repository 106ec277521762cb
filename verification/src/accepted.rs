//! Every tree that the grammar gives can be written down: so a program that
//! parses, written down in its canonical form, parses again as itself.

use crate::ast::Ast;
use crate::grammar::{
    at, at_word, before, expect, g_array, g_array_more, g_base, g_block, g_block_items,
    g_call_args, g_comma_items, g_comparison, g_comparison_rest, g_expr, g_expr_comma,
    g_expr_rest, g_factor, g_for, g_for_in, g_for_tail, g_for_three, g_function, g_keyword,
    g_keyword_more, g_let, g_method_args, g_named, g_one_arg, g_one_closed, g_optional_else,
    g_params, g_program, g_question, g_suffix, g_term, g_term_rest, g_to, g_two_args, g_type,
    is_additive, is_comparison, is_multiplicative, is_step, parse_tokens, ParseErr, Parsed, Tokens,
};
use crate::roundtrip::{
    all_well_formed, lemma_all_wf, lemma_parse_round_trip, lemma_wf, render_program, well_formed,
};
use vstd::prelude::*;

verus! {

/// Whether what a rule gives, where it gives a tree, can be written down.
pub open spec fn fine(r: Parsed<Ast>) -> bool {
    r matches Ok(x) ==> well_formed(x.0)
}

/// Whether what a rule gives, where it gives a list of trees, can be
/// written down.
pub open spec fn all_fine(r: Parsed<Seq<Ast>>) -> bool {
    r matches Ok(x) ==> all_well_formed(x.0, 0)
}

/// A list that can be written down from `from` on still can with one more
/// tree at its end.
pub proof fn lemma_push_from(acc: Seq<Ast>, node: Ast, from: int)
    requires
        0 <= from <= acc.len(),
        all_well_formed(acc, from),
        well_formed(node),
    ensures
        all_well_formed(acc.push(node), from),
    decreases acc.len() - from,
{
    lemma_all_wf(acc, from);
    lemma_all_wf(acc.push(node), from);
    if from < acc.len() {
        lemma_push_from(acc, node, from + 1);
    } else {
        lemma_all_wf(acc.push(node), from + 1);
    }
}

/// A list that can be written down still can with one more tree at its end.
pub proof fn lemma_push(acc: Seq<Ast>, node: Ast)
    requires
        all_well_formed(acc, 0),
        well_formed(node),
    ensures
        all_well_formed(acc.push(node), 0),
{
    lemma_push_from(acc, node, 0);
}

/// The empty list can be written down.
pub proof fn lemma_none()
    ensures
        all_well_formed(Seq::<Ast>::empty(), 0),
{
    lemma_all_wf(Seq::<Ast>::empty(), 0);
}

/// A list of one tree that can be written down can be written down.
pub proof fn lemma_single(node: Ast)
    requires
        well_formed(node),
    ensures
        all_well_formed(seq![node], 0),
{
    lemma_none();
    lemma_push(Seq::<Ast>::empty(), node);
    assert(Seq::<Ast>::empty().push(node) =~= seq![node]);
}

/// A loop with three expressions in its header can be written down where
/// its parts can.
pub proof fn lemma_fold_for(init: Ast, condition: Ast, increment: Ast, body: Seq<Ast>)
    requires
        well_formed(init),
        well_formed(condition),
        well_formed(increment),
        all_well_formed(body, 0),
    ensures
        well_formed(
            Ast::For {
                init: Box::new(init),
                condition: Box::new(condition),
                increment: Box::new(increment),
                body,
            },
        ),
{
    lemma_wf(
        Ast::For {
            init: Box::new(init),
            condition: Box::new(condition),
            increment: Box::new(increment),
            body,
        },
    );
}

/// A form with one operand can be written down where the operand can.
pub proof fn lemma_fold_one(node: Ast)
    requires
        well_formed(node),
    ensures
        well_formed(Ast::Print { left: Box::new(node) }),
        well_formed(Ast::Return(Box::new(node))),
        well_formed(Ast::Delete(Box::new(node))),
        well_formed(Ast::TypeFunc { expr: Box::new(node) }),
        well_formed(Ast::Sleep { expr: Box::new(node) }),
{
    lemma_wf(Ast::Print { left: Box::new(node) });
    lemma_wf(Ast::Return(Box::new(node)));
    lemma_wf(Ast::Delete(Box::new(node)));
    lemma_wf(Ast::TypeFunc { expr: Box::new(node) });
    lemma_wf(Ast::Sleep { expr: Box::new(node) });
}

/// A form with two operands can be written down where the operands can.
pub proof fn lemma_fold_two(first: Ast, second: Ast)
    requires
        well_formed(first),
        well_formed(second),
    ensures
        well_formed(Ast::Random { left: Box::new(first), right: Box::new(second) }),
        well_formed(Ast::Compile { expr: Box::new(first), regex: Box::new(second) }),
        well_formed(Ast::CompileAll { expr: Box::new(first), regex: Box::new(second) }),
{
    lemma_wf(Ast::Random { left: Box::new(first), right: Box::new(second) });
    lemma_wf(Ast::Compile { expr: Box::new(first), regex: Box::new(second) });
    lemma_wf(Ast::CompileAll { expr: Box::new(first), regex: Box::new(second) });
}

/// An expression, where the grammar accepts it, can be written down.
#[verifier::spinoff_prover]
pub proof fn lemma_expr_fine(toks: Tokens, pos: int)
    ensures
        fine(g_expr(toks, pos)),
    decreases toks.len() - pos, 9int,
{
    lemma_term_fine(toks, pos);
    match g_term(toks, pos) {
        Ok((node, p)) => {
            if pos < p <= toks.len() {
                lemma_expr_rest_fine(toks, p, node);
            }
        },
        Err(_) => {},
    }
}

/// What follows a term of an expression, where the grammar accepts it,
/// can be written down.
#[verifier::spinoff_prover]
pub proof fn lemma_expr_rest_fine(toks: Tokens, pos: int, node: Ast)
    requires
        well_formed(node),
    ensures
        fine(g_expr_rest(toks, pos, node)),
    decreases toks.len() - pos, 0int,
{
    if at(toks, pos, "OP"@) && is_additive(toks[pos].1) {
        lemma_term_fine(toks, pos + 1);
        match g_term(toks, pos + 1) {
            Ok((right, p)) => {
                if pos < p <= toks.len() {
                    let n = Ast::BinaryOp {
                        op: toks[pos].1,
                        left: Box::new(node),
                        right: Box::new(right),
                    };
                    lemma_wf(n);
                    lemma_expr_rest_fine(toks, p, n);
                }
            },
            Err(_) => {},
        }
    } else if at(toks, pos, "OP"@) && is_step(toks[pos].1) {
        let n = Ast::UnaryOpTT { op: toks[pos].1, var: Box::new(node) };
        lemma_wf(n);
        lemma_expr_rest_fine(toks, pos + 1, n);
    } else if at(toks, pos, "ASSIGN"@) {
        lemma_expr_fine(toks, pos + 1);
        match g_expr(toks, pos + 1) {
            Ok((right, p)) => {
                if pos < p <= toks.len() {
                    let n = Ast::Assign { left: Box::new(node), right: Box::new(right) };
                    lemma_wf(n);
                    lemma_expr_rest_fine(toks, p, n);
                }
            },
            Err(_) => {},
        }
    }
}

/// A term, where the grammar accepts it, can be written down.
#[verifier::spinoff_prover]
pub proof fn lemma_term_fine(toks: Tokens, pos: int)
    ensures
        fine(g_term(toks, pos)),
    decreases toks.len() - pos, 8int,
{
    lemma_comparison_fine(toks, pos);
    match g_comparison(toks, pos) {
        Ok((node, p)) => {
            if pos < p <= toks.len() {
                lemma_term_rest_fine(toks, p, node);
            }
        },
        Err(_) => {},
    }
}

/// What follows a factor of a term, where the grammar accepts it, can be
/// written down.
#[verifier::spinoff_prover]
pub proof fn lemma_term_rest_fine(toks: Tokens, pos: int, node: Ast)
    requires
        well_formed(node),
    ensures
        fine(g_term_rest(toks, pos, node)),
    decreases toks.len() - pos, 0int,
{
    if at(toks, pos, "OP"@) && is_multiplicative(toks[pos].1) {
        lemma_comparison_fine(toks, pos + 1);
        match g_comparison(toks, pos + 1) {
            Ok((right, p)) => {
                if pos < p <= toks.len() {
                    let n = Ast::BinaryOp {
                        op: toks[pos].1,
                        left: Box::new(node),
                        right: Box::new(right),
                    };
                    lemma_wf(n);
                    lemma_term_rest_fine(toks, p, n);
                }
            },
            Err(_) => {},
        }
    }
}

/// A comparison, where the grammar accepts it, can be written down.
#[verifier::spinoff_prover]
pub proof fn lemma_comparison_fine(toks: Tokens, pos: int)
    ensures
        fine(g_comparison(toks, pos)),
    decreases toks.len() - pos, 7int,
{
    lemma_factor_fine(toks, pos);
    match g_factor(toks, pos) {
        Ok((node, p)) => {
            if pos < p <= toks.len() {
                lemma_comparison_rest_fine(toks, p, node);
            }
        },
        Err(_) => {},
    }
}

/// What follows the first operand of a comparison, where the grammar
/// accepts it, can be written down.
#[verifier::spinoff_prover]
pub proof fn lemma_comparison_rest_fine(toks: Tokens, pos: int, node: Ast)
    requires
        well_formed(node),
    ensures
        fine(g_comparison_rest(toks, pos, node)),
    decreases toks.len() - pos, 0int,
{
    if at(toks, pos, "OP"@) && is_comparison(toks[pos].1) {
        lemma_factor_fine(toks, pos + 1);
        match g_factor(toks, pos + 1) {
            Ok((right, p)) => {
                if pos < p <= toks.len() {
                    let n = Ast::BinaryOp {
                        op: toks[pos].1,
                        left: Box::new(node),
                        right: Box::new(right),
                    };
                    lemma_wf(n);
                    lemma_comparison_rest_fine(toks, p, n);
                }
            },
            Err(_) => {},
        }
    }
}

/// A factor, where the grammar accepts it, can be written down.
#[verifier::spinoff_prover]
pub proof fn lemma_factor_fine(toks: Tokens, pos: int)
    ensures
        fine(g_factor(toks, pos)),
    decreases toks.len() - pos, 6int,
{
    lemma_base_fine(toks, pos);
    match g_base(toks, pos) {
        Ok(((node, open), p)) => {
            if open && pos < p <= toks.len() {
                lemma_suffix_fine(toks, p, node);
            }
        },
        Err(_) => {},
    }
}

/// What follows the base of a factor, where the grammar accepts it, can
/// be written down.
#[verifier::spinoff_prover]
pub proof fn lemma_suffix_fine(toks: Tokens, pos: int, node: Ast)
    requires
        well_formed(node),
    ensures
        fine(g_suffix(toks, pos, node)),
    decreases toks.len() - pos, 0int,
{
    if at(toks, pos, "LBRACKET"@) {
        lemma_expr_fine(toks, pos + 1);
        match g_expr(toks, pos + 1) {
            Ok((index, p)) => match expect(toks, p, "RBRACKET"@) {
                Ok((_, p2)) => {
                    if pos < p2 <= toks.len() {
                        let n = Ast::Index { array: Box::new(node), index: Box::new(index) };
                        lemma_wf(n);
                        lemma_suffix_fine(toks, p2, n);
                    }
                },
                Err(_) => {},
            },
            Err(_) => {},
        }
    } else if at(toks, pos, "DOT"@) {
        match expect(toks, pos + 1, "ID"@) {
            Ok((method, p)) => match expect(toks, p, "LPAREN"@) {
                Ok((_, p2)) => {
                    lemma_method_args_fine(toks, p2);
                    match g_method_args(toks, p2) {
                        Ok((args, p3)) => match expect(toks, p3, "RPAREN"@) {
                            Ok((_, p4)) => {
                                if pos < p4 <= toks.len() {
                                    let n = Ast::MethodCall {
                                        object: Box::new(node),
                                        method,
                                        args,
                                    };
                                    lemma_wf(n);
                                    lemma_suffix_fine(toks, p4, n);
                                }
                            },
                            Err(_) => {},
                        },
                        Err(_) => {},
                    }
                },
                Err(_) => {},
            },
            Err(_) => {},
        }
    }
}

/// The arguments of a method call, where the grammar accepts it, can be
/// written down.
#[verifier::spinoff_prover]
pub proof fn lemma_method_args_fine(toks: Tokens, pos: int)
    ensures
        all_fine(g_method_args(toks, pos)),
    decreases toks.len() - pos, 11int,
{
    if before(toks, pos, "RPAREN"@) {
        lemma_expr_fine(toks, pos);
        match g_expr(toks, pos) {
            Ok((first, p)) => {
                if pos < p <= toks.len() {
                    lemma_single(first);
                    lemma_comma_items_fine(toks, p, seq![first]);
                }
            },
            Err(_) => {},
        }
    } else {
        lemma_none();
    }
}

/// The items after a comma, where the grammar accepts it, can be written down.
#[verifier::spinoff_prover]
pub proof fn lemma_comma_items_fine(toks: Tokens, pos: int, acc: Seq<Ast>)
    requires
        all_well_formed(acc, 0),
    ensures
        all_fine(g_comma_items(toks, pos, acc)),
    decreases toks.len() - pos, 0int,
{
    if at(toks, pos, "COMMA"@) {
        lemma_expr_fine(toks, pos + 1);
        match g_expr(toks, pos + 1) {
            Ok((item, p)) => {
                if pos < p <= toks.len() {
                    lemma_push(acc, item);
                    lemma_comma_items_fine(toks, p, acc.push(item));
                }
            },
            Err(_) => {},
        }
    }
}

/// The arguments of a call, where the grammar accepts it, can be written down.
#[verifier::spinoff_prover]
pub proof fn lemma_call_args_fine(toks: Tokens, pos: int, acc: Seq<Ast>)
    requires
        all_well_formed(acc, 0),
    ensures
        all_fine(g_call_args(toks, pos, acc)),
    decreases toks.len() - pos, 10int,
{
    if before(toks, pos, "RPAREN"@) {
        lemma_expr_fine(toks, pos);
        match g_expr(toks, pos) {
            Ok((arg, p)) => {
                if pos < p <= toks.len() {
                    lemma_push(acc, arg);
                    if at(toks, p, "COMMA"@) {
                        lemma_call_args_fine(toks, p + 1, acc.push(arg));
                    } else {
                        lemma_call_args_fine(toks, p, acc.push(arg));
                    }
                }
            },
            Err(_) => {},
        }
    }
}

/// The further items of an array, where the grammar accepts it, can be
/// written down.
#[verifier::spinoff_prover]
pub proof fn lemma_array_more_fine(toks: Tokens, pos: int, acc: Seq<Ast>)
    requires
        all_well_formed(acc, 0),
    ensures
        all_fine(g_array_more(toks, pos, acc)),
    decreases toks.len() - pos, 0int,
{
    if before(toks, pos, "RBRACKET"@) {
        match expect(toks, pos, "COMMA"@) {
            Ok((_, p)) => {
                lemma_expr_fine(toks, p);
                match g_expr(toks, p) {
                    Ok((item, p2)) => {
                        if pos < p2 <= toks.len() {
                            lemma_push(acc, item);
                            lemma_array_more_fine(toks, p2, acc.push(item));
                        }
                    },
                    Err(_) => {},
                }
            },
            Err(_) => {},
        }
    }
}

/// An array, where the grammar accepts it, can be written down.
#[verifier::spinoff_prover]
pub proof fn lemma_array_fine(toks: Tokens, pos: int)
    ensures
        fine(g_array(toks, pos)),
    decreases toks.len() - pos, 4int,
{
    match expect(toks, pos, "LBRACKET"@) {
        Ok((_, p)) => {
            if before(toks, p, "RBRACKET"@) {
                lemma_expr_fine(toks, p);
                match g_expr(toks, p) {
                    Ok((first, p2)) => {
                        if p < p2 <= toks.len() {
                            lemma_single(first);
                            lemma_array_more_fine(toks, p2, seq![first]);
                        }
                    },
                    Err(_) => {},
                }
            } else {
                lemma_none();
            }
            match g_array(toks, pos) {
                Ok((node, _)) => {
                    lemma_wf(node);
                },
                Err(_) => {},
            }
        },
        Err(_) => {},
    }
}

/// The statements of a block, where the grammar accepts it, can be
/// written down.
#[verifier::spinoff_prover]
pub proof fn lemma_block_items_fine(toks: Tokens, pos: int, acc: Seq<Ast>)
    requires
        all_well_formed(acc, 0),
    ensures
        all_fine(g_block_items(toks, pos, acc)),
    decreases toks.len() - pos, 10int,
{
    if before(toks, pos, "RBRACE"@) {
        lemma_expr_fine(toks, pos);
        match g_expr(toks, pos) {
            Ok((node, p)) => {
                if pos < p <= toks.len() {
                    lemma_push(acc, node);
                    lemma_block_items_fine(toks, p, acc.push(node));
                }
            },
            Err(_) => {},
        }
    }
}

/// A block, where the grammar accepts it, can be written down.
#[verifier::spinoff_prover]
pub proof fn lemma_block_fine(toks: Tokens, pos: int)
    ensures
        all_fine(g_block(toks, pos)),
    decreases toks.len() - pos, 11int,
{
    match expect(toks, pos, "LBRACE"@) {
        Ok((_, p)) => {
            lemma_none();
            lemma_block_items_fine(toks, p, Seq::empty());
        },
        Err(_) => {},
    }
}

/// An `else` part, where there is one, where the grammar accepts it, can
/// be written down.
#[verifier::spinoff_prover]
pub proof fn lemma_optional_else_fine(toks: Tokens, pos: int)
    ensures
        g_optional_else(toks, pos) matches Ok(x) ==> (x.0 matches Some(nodes)
            ==> all_well_formed(nodes, 0)),
    decreases toks.len() - pos, 12int,
{
    if at_word(toks, pos, "KEYWORD"@, "else"@) {
        lemma_block_fine(toks, pos + 1);
    }
}

/// One argument between parentheses, where the grammar accepts it, can be
/// written down.
#[verifier::spinoff_prover]
pub proof fn lemma_one_arg_fine(toks: Tokens, pos: int)
    ensures
        fine(g_one_arg(toks, pos)),
    decreases toks.len() - pos, 10int,
{
    match expect(toks, pos, "LPAREN"@) {
        Ok((_, p)) => {
            lemma_expr_fine(toks, p);
        },
        Err(_) => {},
    }
}

/// Two arguments between parentheses, where the grammar accepts it, can
/// be written down.
#[verifier::spinoff_prover]
pub proof fn lemma_two_args_fine(toks: Tokens, pos: int)
    ensures
        g_two_args(toks, pos) matches Ok(x) ==> well_formed(x.0.0) && well_formed(x.0.1),
    decreases toks.len() - pos, 10int,
{
    match expect(toks, pos, "LPAREN"@) {
        Ok((_, p)) => {
            lemma_expr_fine(toks, p);
            match g_expr(toks, p) {
                Ok((first, p2)) => match expect(toks, p2, "COMMA"@) {
                    Ok((_, p3)) => {
                        if pos < p3 <= toks.len() {
                            lemma_expr_fine(toks, p3);
                        }
                    },
                    Err(_) => {},
                },
                Err(_) => {},
            }
        },
        Err(_) => {},
    }
}

/// A function definition, where the grammar accepts it, can be written down.
#[verifier::spinoff_prover]
pub proof fn lemma_function_fine(toks: Tokens, pos: int)
    ensures
        fine(g_function(toks, pos)),
    decreases toks.len() - pos, 13int,
{
    match expect(toks, pos, "ID"@) {
        Ok((name, p)) => match expect(toks, p, "LPAREN"@) {
            Ok((_, p2)) => match g_params(toks, p2) {
                Ok((params, p3)) => match expect(toks, p3, "RPAREN"@) {
                    Ok((_, p4)) => {
                        let p6 = if at(toks, p4, "ARROW"@) {
                            match g_type(toks, p4 + 1) {
                                Ok((_, p5)) => p5,
                                Err(_) => -1,
                            }
                        } else {
                            p4
                        };
                        if pos < p6 <= toks.len() {
                            lemma_block_fine(toks, p6);
                        }
                        match g_function(toks, pos) {
                            Ok((node, _)) => {
                                lemma_wf(node);
                            },
                            Err(_) => {},
                        }
                    },
                    Err(_) => {},
                },
                Err(_) => {},
            },
            Err(_) => {},
        },
        Err(_) => {},
    }
}

/// A loop over the items of a value, where the grammar accepts it, can be
/// written down.
#[verifier::spinoff_prover]
pub proof fn lemma_for_in_fine(toks: Tokens, pos: int, var: Seq<char>)
    ensures
        fine(g_for_in(toks, pos, var)),
    decreases toks.len() - pos, 12int,
{
    lemma_expr_fine(toks, pos);
    match g_expr(toks, pos) {
        Ok((iterable, p2)) => match expect(toks, p2, "RPAREN"@) {
            Ok((_, p3)) => {
                if pos < p3 <= toks.len() {
                    lemma_block_fine(toks, p3);
                    match g_block(toks, p3) {
                        Ok((body, _)) => {
                            lemma_wf(Ast::ForIn { var, iterable: Box::new(iterable), body });
                        },
                        Err(_) => {},
                    }
                }
            },
            Err(_) => {},
        },
        Err(_) => {},
    }
}

/// An expression before a comma, where the grammar accepts it, can be
/// written down.
#[verifier::spinoff_prover]
pub proof fn lemma_expr_comma_fine(toks: Tokens, pos: int)
    ensures
        fine(g_expr_comma(toks, pos)),
    decreases toks.len() - pos, 10int,
{
    lemma_expr_fine(toks, pos);
}

/// An expression before a closing parenthesis, where the grammar accepts
/// it, can be written down.
#[verifier::spinoff_prover]
pub proof fn lemma_one_closed_fine(toks: Tokens, pos: int)
    ensures
        fine(g_one_closed(toks, pos)),
    decreases toks.len() - pos, 10int,
{
    lemma_expr_fine(toks, pos);
}

/// The end of a loop with three expressions, where the grammar accepts
/// it, can be written down.
#[verifier::spinoff_prover]
pub proof fn lemma_for_tail_fine(toks: Tokens, pos: int, init: Ast, condition: Ast)
    requires
        well_formed(init),
        well_formed(condition),
    ensures
        fine(g_for_tail(toks, pos, init, condition)),
    decreases toks.len() - pos, 11int,
{
    lemma_one_closed_fine(toks, pos);
    match g_one_closed(toks, pos) {
        Ok((increment, p)) => {
            if pos < p <= toks.len() {
                lemma_block_fine(toks, p);
                match g_block(toks, p) {
                    Ok((body, _)) => {
                        lemma_fold_for(init, condition, increment, body);
                    },
                    Err(_) => {},
                }
            }
        },
        Err(_) => {},
    }
}

/// A loop with three expressions, where the grammar accepts it, can be
/// written down.
#[verifier::spinoff_prover]
pub proof fn lemma_for_three_fine(toks: Tokens, pos: int)
    ensures
        fine(g_for_three(toks, pos)),
    decreases toks.len() - pos, 12int,
{
    lemma_expr_comma_fine(toks, pos);
    match g_expr_comma(toks, pos) {
        Ok((init, p)) => {
            if pos < p <= toks.len() {
                lemma_expr_comma_fine(toks, p);
                match g_expr_comma(toks, p) {
                    Ok((condition, p2)) => {
                        if p < p2 <= toks.len() {
                            lemma_for_tail_fine(toks, p2, init, condition);
                        }
                    },
                    Err(_) => {},
                }
            }
        },
        Err(_) => {},
    }
}

/// A loop, where the grammar accepts it, can be written down.
#[verifier::spinoff_prover]
pub proof fn lemma_for_fine(toks: Tokens, pos: int)
    ensures
        fine(g_for(toks, pos)),
    decreases toks.len() - pos, 13int,
{
    match expect(toks, pos, "LPAREN"@) {
        Ok((_, p)) => {
            if at(toks, p, "ID"@) && at_word(toks, p + 1, "KEYWORD"@, "in"@) {
                lemma_for_in_fine(toks, p + 2, toks[p].1);
            } else {
                lemma_for_three_fine(toks, p);
            }
        },
        Err(_) => {},
    }
}

/// A conversion, where the grammar accepts it, can be written down.
#[verifier::spinoff_prover]
pub proof fn lemma_to_fine(toks: Tokens, pos: int)
    ensures
        fine(g_to(toks, pos)),
    decreases toks.len() - pos, 13int,
{
    match expect(toks, pos, "LPAREN"@) {
        Ok((_, p)) => match g_type(toks, p) {
            Ok((types, p2)) => match expect(toks, p2, "COMMA"@) {
                Ok((_, p3)) => {
                    if pos < p3 <= toks.len() {
                        lemma_expr_fine(toks, p3);
                        match g_to(toks, pos) {
                            Ok((node, _)) => {
                                lemma_wf(node);
                            },
                            Err(_) => {},
                        }
                    }
                },
                Err(_) => {},
            },
            Err(_) => {},
        },
        Err(_) => {},
    }
}

/// A declaration, where the grammar accepts it, can be written down.
#[verifier::spinoff_prover]
pub proof fn lemma_let_fine(toks: Tokens, pos: int)
    ensures
        fine(g_let(toks, pos)),
    decreases toks.len() - pos, 13int,
{
    match expect(toks, pos, "ID"@) {
        Ok((name, p)) => {
            let p3 = if at(toks, p, "COLON"@) {
                match g_type(toks, p + 1) {
                    Ok((t, p2)) => if at_word(toks, p2, "OP"@, "&"@) {
                        p2 + 1
                    } else {
                        p2
                    },
                    Err(_) => -1,
                }
            } else {
                p
            };
            match expect(toks, p3, "ASSIGN"@) {
                Ok((_, p4)) => {
                    if pos < p4 <= toks.len() {
                        lemma_expr_fine(toks, p4);
                    }
                },
                Err(_) => {},
            }
            match g_let(toks, pos) {
                Ok((node, _)) => {
                    lemma_wf(node);
                },
                Err(_) => {},
            }
        },
        Err(_) => {},
    }
}

/// A branch, after its condition, where the grammar accepts it, can be
/// written down.
#[verifier::spinoff_prover]
pub proof fn lemma_question_fine(toks: Tokens, pos: int, condition: Ast)
    requires
        well_formed(condition),
    ensures
        fine(g_question(toks, pos, condition)),
    decreases toks.len() - pos, 13int,
{
    lemma_block_fine(toks, pos);
    match g_block(toks, pos) {
        Ok((body, p)) => {
            if pos < p <= toks.len() {
                lemma_optional_else_fine(toks, p);
                match g_question(toks, pos, condition) {
                    Ok((node, _)) => {
                        lemma_wf(node);
                    },
                    Err(_) => {},
                }
            }
        },
        Err(_) => {},
    }
}

/// What starts with a name, where the grammar accepts it, can be written down.
#[verifier::spinoff_prover]
pub proof fn lemma_named_fine(toks: Tokens, pos: int, name: Seq<char>)
    ensures
        g_named(toks, pos, name) matches Ok(x) ==> well_formed(x.0.0),
    decreases toks.len() - pos, 16int,
{
    lemma_wf(Ast::Identifier(name));
    if at(toks, pos, "LPAREN"@) {
        lemma_none();
        lemma_call_args_fine(toks, pos + 1, Seq::empty());
        match g_call_args(toks, pos + 1, Seq::empty()) {
            Ok((args, p)) => match expect(toks, p, "RPAREN"@) {
                Ok((_, p2)) => {
                    let call = Ast::FunctionCall { name, args };
                    lemma_wf(call);
                    if at_word(toks, p2, "OP"@, "?"@) {
                        if pos < p2 <= toks.len() {
                            lemma_question_fine(toks, p2 + 1, call);
                        }
                    }
                },
                Err(_) => {},
            },
            Err(_) => {},
        }
    } else if at_word(toks, pos, "OP"@, "?"@) {
        lemma_question_fine(toks, pos + 1, Ast::Identifier(name));
    }
}

/// What a keyword leads, where the grammar accepts it, can be written down.
#[verifier::spinoff_prover]
pub proof fn lemma_keyword_fine(toks: Tokens, pos: int, word: Seq<char>)
    ensures
        fine(g_keyword(toks, pos, word)),
    decreases toks.len() - pos, 15int,
{
    if word == "print"@ {
        lemma_one_arg_fine(toks, pos);
        match g_one_arg(toks, pos) {
            Ok((node, _)) => {
                lemma_wf(Ast::Print { left: Box::new(node) });
            },
            Err(_) => {},
        }
    } else if word == "let"@ {
        lemma_let_fine(toks, pos);
    } else if word == "import"@ {
        match expect(toks, pos, "STRING"@) {
            Ok((path, _)) => {
                lemma_wf(Ast::Import { path });
            },
            Err(_) => {},
        }
    } else if word == "input"@ {
        match g_keyword(toks, pos, word) {
            Ok((node, _)) => {
                assert(node is Input);
                lemma_wf(node);
            },
            Err(_) => {},
        }
    } else if word == "if"@ {
        lemma_one_arg_fine(toks, pos);
        match g_one_arg(toks, pos) {
            Ok((condition, p)) => {
                if pos < p <= toks.len() {
                    lemma_question_fine(toks, p, condition);
                }
            },
            Err(_) => {},
        }
    } else if word == "while"@ {
        lemma_one_arg_fine(toks, pos);
        match g_one_arg(toks, pos) {
            Ok((condition, p)) => {
                if pos < p <= toks.len() {
                    lemma_block_fine(toks, p);
                    match g_block(toks, p) {
                        Ok((body, _)) => {
                            lemma_wf(Ast::While { condition: Box::new(condition), body });
                        },
                        Err(_) => {},
                    }
                }
            },
            Err(_) => {},
        }
    } else if word == "for"@ {
        lemma_for_fine(toks, pos);
    } else {
        lemma_keyword_more_fine(toks, pos, word);
    }
}

/// What one of the other keywords leads, where the grammar accepts it,
/// can be written down.
#[verifier::spinoff_prover]
pub proof fn lemma_keyword_more_fine(toks: Tokens, pos: int, word: Seq<char>)
    ensures
        fine(g_keyword_more(toks, pos, word)),
    decreases toks.len() - pos, 14int,
{
    if word == "random"@ {
        lemma_two_args_fine(toks, pos);
        match g_two_args(toks, pos) {
            Ok(((first, second), _)) => {
                lemma_fold_two(first, second);
            },
            Err(_) => {},
        }
    } else if word == "return"@ {
        lemma_expr_fine(toks, pos);
        match g_expr(toks, pos) {
            Ok((node, _)) => {
                lemma_fold_one(node);
            },
            Err(_) => {},
        }
    } else if word == "del"@ {
        lemma_one_arg_fine(toks, pos);
        match g_one_arg(toks, pos) {
            Ok((node, _)) => {
                lemma_fold_one(node);
            },
            Err(_) => {},
        }
    } else if word == "func"@ {
        lemma_function_fine(toks, pos);
    } else if word == "to"@ {
        lemma_to_fine(toks, pos);
    } else if word == "type"@ {
        lemma_one_arg_fine(toks, pos);
        match g_one_arg(toks, pos) {
            Ok((node, _)) => {
                lemma_fold_one(node);
            },
            Err(_) => {},
        }
    } else if word == "sleep"@ {
        lemma_one_arg_fine(toks, pos);
        match g_one_arg(toks, pos) {
            Ok((node, _)) => {
                lemma_fold_one(node);
            },
            Err(_) => {},
        }
    } else if word == "compile"@ {
        lemma_two_args_fine(toks, pos);
        match g_two_args(toks, pos) {
            Ok(((first, second), _)) => {
                lemma_fold_two(first, second);
            },
            Err(_) => {},
        }
    } else if word == "compile_all"@ {
        lemma_two_args_fine(toks, pos);
        match g_two_args(toks, pos) {
            Ok(((first, second), _)) => {
                lemma_fold_two(first, second);
            },
            Err(_) => {},
        }
    }
}

/// The base of a factor, where the grammar accepts it, can be written down.
#[verifier::spinoff_prover]
pub proof fn lemma_base_fine(toks: Tokens, pos: int)
    ensures
        g_base(toks, pos) matches Ok(x) ==> well_formed(x.0.0),
    decreases toks.len() - pos, 5int,
{
    if 0 <= pos < toks.len() {
        let kind = toks[pos].0;
        let word = toks[pos].1;
        if kind == "KEYWORD"@ {
            lemma_keyword_fine(toks, pos + 1, word);
        } else if kind == "BOOL"@ {
        } else if kind == "LPAREN"@ {
            lemma_expr_fine(toks, pos + 1);
        } else if kind == "LBRACKET"@ {
            lemma_array_fine(toks, pos);
        } else if kind == "STRING"@ {
        } else if kind == "REGEX"@ {
        } else if kind == "NUMBER"@ {
        } else if kind == "FLOAT"@ {
        } else if kind == "ID"@ {
            lemma_named_fine(toks, pos + 1, word);
        }
        match g_base(toks, pos) {
            Ok(((node, _), _)) => {
                lemma_wf(node);
            },
            Err(_) => {},
        }
    }
}

/// A program, from `pos` on, where the grammar accepts it, can be written down.
#[verifier::spinoff_prover]
pub proof fn lemma_program_fine(toks: Tokens, pos: int, acc: Seq<Ast>)
    requires
        all_well_formed(acc, 0),
    ensures
        g_program(toks, pos, acc) matches Ok(nodes) ==> all_well_formed(nodes, 0),
    decreases toks.len() - pos,
{
    if 0 <= pos < toks.len() {
        lemma_expr_fine(toks, pos);
        match g_expr(toks, pos) {
            Ok((node, p)) => {
                if pos < p <= toks.len() {
                    lemma_push(acc, node);
                    lemma_program_fine(toks, p, acc.push(node));
                }
            },
            Err(_) => {},
        }
    }
}

/// Every program that parses can be written down.
pub proof fn lemma_parsed_is_well_formed(toks: Tokens)
    ensures
        parse_tokens(toks) matches Ok(nodes) ==> all_well_formed(nodes, 0),
{
    lemma_none();
    lemma_program_fine(toks, 0, Seq::empty());
}

/// Parse round trip. Whatever tokens a program is made of, if it parses,
/// its syntax tree written down in the canonical form parses as the same
/// syntax tree.
pub proof fn lemma_reparse(toks: Tokens)
    ensures
        parse_tokens(toks) matches Ok(nodes) ==> parse_tokens(render_program(nodes)) == Ok::<
            Seq<Ast>,
            ParseErr,
        >(nodes),
{
    lemma_parsed_is_well_formed(toks);
    match parse_tokens(toks) {
        Ok(nodes) => {
            lemma_parse_round_trip(nodes);
        },
        Err(_) => {},
    }
}

} // verus!
