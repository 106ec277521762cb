//! The canonical form of a program: its syntax tree written down as tokens,
//! with every operand and every statement between parentheses, and the
//! tokens written down as source text.

use crate::accepted::lemma_parsed_is_well_formed;
use crate::ast::{
    lemma_nodes_view, nodes_view, opt_nodes_view, params_view, Ast, AstNode, Param,
};
use crate::errors::type_word;
use crate::grammar::{parse_tokens, ParseErr, Tokens};
use crate::lexer::token_views;
use crate::parser::{Parser, ParserError};
use crate::roundtrip::{
    all_well_formed, call_list, commas, cons, else_part, join, lemma_all_wf, lemma_call_list_shape,
    lemma_more, lemma_params_more_shape, lemma_parse_round_trip, lemma_render, lemma_stmts,
    lemma_wf, lemma_wrap, more, one, param_toks, params_more, params_toks, render,
    render_program, shape, stmts, well_formed, wrap,
};
use crate::text::{display_int, text_is};
use vstd::prelude::*;

verus! {

broadcast use vstd::std_specs::vec::group_vec_axioms;

/// Puts one token at the end of `out`.
fn put(out: &mut Vec<(String, String)>, kind: &str, word: &str)
    ensures
        token_views(final(out)@) == token_views(old(out)@).push((kind@, word@)),
{
    out.push((kind.to_owned(), word.to_owned()));
    proof {
        assert(token_views(out@) =~= token_views(old(out)@).push((kind@, word@)));
    }
}

/// Puts the tokens of a tree between parentheses at the end of `out`.
fn write_wrapped(node: &AstNode, out: &mut Vec<(String, String)>)
    requires
        well_formed(node@),
    ensures
        token_views(final(out)@) == token_views(old(out)@) + wrap(node@),
    decreases node, 2int,
{
    let ghost before = token_views(out@);
    put(out, "LPAREN", "(");
    write_node(node, out);
    put(out, "RPAREN", ")");
    proof {
        lemma_wrap(node@);
        reveal(cons);
        reveal(one);
        reveal(join);
        assert(token_views(out@) =~= before + wrap(node@));
    }
}

/// Puts the tokens of statements, each between parentheses, at the end of
/// `out`.
fn write_stmts(nodes: &Vec<AstNode>, out: &mut Vec<(String, String)>)
    requires
        all_well_formed(nodes_view(nodes@), 0),
    ensures
        token_views(final(out)@) == token_views(old(out)@) + stmts(nodes_view(nodes@), 0),
    decreases nodes, 3int,
{
    let ghost target = token_views(out@) + stmts(nodes_view(nodes@), 0);
    let mut i: usize = 0;
    proof {
        lemma_nodes_view(nodes@);
    }
    while i < nodes.len()
        invariant
            i <= nodes.len(),
            nodes_view(nodes@).len() == nodes.len(),
            all_well_formed(nodes_view(nodes@), i as int),
            token_views(out@) + stmts(nodes_view(nodes@), i as int) == target,
        decreases nodes.len() - i,
    {
        let ghost before = token_views(out@);
        proof {
            lemma_nodes_view(nodes@);
            lemma_all_wf(nodes_view(nodes@), i as int);
            lemma_stmts(nodes_view(nodes@), i as int);
        }
        write_wrapped(&nodes[i], out);
        proof {
            reveal(join);
            assert(token_views(out@) + stmts(nodes_view(nodes@), i + 1) =~= before + stmts(
                nodes_view(nodes@),
                i as int,
            ));
        }
        i = i + 1;
    }
    proof {
        lemma_stmts(nodes_view(nodes@), i as int);
        assert(token_views(out@) =~= target);
    }
}

/// Puts the tokens of a block at the end of `out`.
fn write_block(nodes: &Vec<AstNode>, out: &mut Vec<(String, String)>)
    requires
        all_well_formed(nodes_view(nodes@), 0),
    ensures
        token_views(final(out)@) == token_views(old(out)@) + crate::roundtrip::block(
            nodes_view(nodes@),
        ),
    decreases nodes, 4int,
{
    let ghost before = token_views(out@);
    put(out, "LBRACE", "{");
    write_stmts(nodes, out);
    put(out, "RBRACE", "}");
    proof {
        reveal(cons);
        reveal(one);
        reveal(join);
        assert(token_views(out@) =~= before + crate::roundtrip::block(nodes_view(nodes@)));
    }
}

/// Puts the tokens of an `else` and its block, if there is one, at the end
/// of `out`.
fn write_else(e: &Option<Vec<AstNode>>, out: &mut Vec<(String, String)>)
    requires
        opt_nodes_view(*e) matches Some(nodes) ==> all_well_formed(nodes, 0),
    ensures
        token_views(final(out)@) == token_views(old(out)@) + else_part(opt_nodes_view(*e)),
    decreases e, 5int,
{
    let ghost before = token_views(out@);
    match e {
        Some(nodes) => {
            put(out, "KEYWORD", "else");
            write_block(nodes, out);
            proof {
                reveal(cons);
                assert(token_views(out@) =~= before + else_part(opt_nodes_view(*e)));
            }
        },
        None => {
            proof {
                assert(token_views(out@) =~= before + else_part(opt_nodes_view(*e)));
            }
        },
    }
}

/// Puts the tokens of a list of items, with a comma between each two, at
/// the end of `out`.
fn write_commas(nodes: &Vec<AstNode>, out: &mut Vec<(String, String)>)
    requires
        all_well_formed(nodes_view(nodes@), 0),
    ensures
        token_views(final(out)@) == token_views(old(out)@) + commas(nodes_view(nodes@)),
    decreases nodes, 3int,
{
    let ghost target = token_views(out@) + commas(nodes_view(nodes@));
    proof {
        lemma_nodes_view(nodes@);
    }
    if nodes.len() == 0 {
        proof {
            assert(token_views(out@) =~= target);
        }
        return ;
    }
    let ghost start = token_views(out@);
    proof {
        lemma_all_wf(nodes_view(nodes@), 0);
    }
    write_wrapped(&nodes[0], out);
    proof {
        reveal(join);
        assert(token_views(out@) + more(nodes_view(nodes@), 1) =~= target);
    }
    let mut i: usize = 1;
    while i < nodes.len()
        invariant
            1 <= i <= nodes.len(),
            nodes_view(nodes@).len() == nodes.len(),
            all_well_formed(nodes_view(nodes@), i as int),
            token_views(out@) + more(nodes_view(nodes@), i as int) == target,
        decreases nodes.len() - i,
    {
        let ghost before = token_views(out@);
        proof {
            lemma_nodes_view(nodes@);
            lemma_all_wf(nodes_view(nodes@), i as int);
            lemma_more(nodes_view(nodes@), i as int);
        }
        put(out, "COMMA", ",");
        write_wrapped(&nodes[i], out);
        proof {
            reveal(join);
            reveal(cons);
            assert(token_views(out@) + more(nodes_view(nodes@), i + 1) =~= before + more(
                nodes_view(nodes@),
                i as int,
            ));
        }
        i = i + 1;
    }
    proof {
        lemma_more(nodes_view(nodes@), i as int);
        assert(token_views(out@) =~= target);
    }
}

/// Puts the tokens of the arguments of a call, with a comma between each
/// two, at the end of `out`.
fn write_call_list(nodes: &Vec<AstNode>, out: &mut Vec<(String, String)>)
    requires
        all_well_formed(nodes_view(nodes@), 0),
    ensures
        token_views(final(out)@) == token_views(old(out)@) + call_list(nodes_view(nodes@), 0),
    decreases nodes, 3int,
{
    let ghost target = token_views(out@) + call_list(nodes_view(nodes@), 0);
    let mut i: usize = 0;
    proof {
        lemma_nodes_view(nodes@);
    }
    while i < nodes.len()
        invariant
            i <= nodes.len(),
            nodes_view(nodes@).len() == nodes.len(),
            all_well_formed(nodes_view(nodes@), i as int),
            token_views(out@) + call_list(nodes_view(nodes@), i as int) == target,
        decreases nodes.len() - i,
    {
        let ghost before = token_views(out@);
        proof {
            lemma_nodes_view(nodes@);
            lemma_all_wf(nodes_view(nodes@), i as int);
            lemma_call_list_shape(nodes_view(nodes@), i as int);
            lemma_call_list_shape(nodes_view(nodes@), i + 1);
        }
        write_wrapped(&nodes[i], out);
        if i + 1 < nodes.len() {
            put(out, "COMMA", ",");
        }
        proof {
            reveal(join);
            reveal(cons);
            assert(token_views(out@) + call_list(nodes_view(nodes@), i + 1) =~= before + call_list(
                nodes_view(nodes@),
                i as int,
            ));
        }
        i = i + 1;
    }
    proof {
        lemma_call_list_shape(nodes_view(nodes@), i as int);
        assert(token_views(out@) =~= target);
    }
}

/// Puts the tokens of a parameter at the end of `out`.
fn write_param(p: &Param, out: &mut Vec<(String, String)>)
    ensures
        token_views(final(out)@) == token_views(old(out)@) + param_toks(p@),
{
    let ghost before = token_views(out@);
    put(out, "ID", p.name.as_str());
    match p.param_type {
        Some(t) => {
            put(out, "COLON", ":");
            put(out, "TYPES", type_word(t));
        },
        None => {},
    }
    proof {
        reveal(cons);
        reveal(one);
        assert(token_views(out@) =~= before + param_toks(p@));
    }
}

/// Puts the tokens of a list of parameters at the end of `out`.
fn write_params(ps: &Vec<Param>, out: &mut Vec<(String, String)>)
    ensures
        token_views(final(out)@) == token_views(old(out)@) + params_toks(params_view(ps@)),
{
    let ghost target = token_views(out@) + params_toks(params_view(ps@));
    if ps.len() == 0 {
        proof {
            assert(token_views(out@) =~= target);
        }
        return ;
    }
    write_param(&ps[0], out);
    proof {
        reveal(join);
        assert(token_views(out@) + params_more(params_view(ps@), 1) =~= target);
    }
    let mut i: usize = 1;
    while i < ps.len()
        invariant
            1 <= i <= ps.len(),
            token_views(out@) + params_more(params_view(ps@), i as int) == target,
        decreases ps.len() - i,
    {
        let ghost before = token_views(out@);
        proof {
            lemma_params_more_shape(params_view(ps@), i as int);
        }
        put(out, "COMMA", ",");
        write_param(&ps[i], out);
        proof {
            reveal(join);
            reveal(cons);
            assert(token_views(out@) + params_more(params_view(ps@), i + 1) =~= before
                + params_more(params_view(ps@), i as int));
        }
        i = i + 1;
    }
    proof {
        lemma_params_more_shape(params_view(ps@), i as int);
        assert(token_views(out@) =~= target);
    }
}

/// Puts the tokens of a tree that is a `Number` at the end of `out`.
fn write_number(node: &AstNode, out: &mut Vec<(String, String)>)
    requires
        well_formed(node@),
        node is Number,
    ensures
        token_views(final(out)@) == token_views(old(out)@) + render(node@),
    decreases node, 0int,
{
    let ghost before = token_views(out@);
    proof {
        lemma_render(node@);
        lemma_wf(node@);
    }
    match node {
        AstNode::Number(n) => {
            let word = display_int(*n);
            put(out, "NUMBER", word.as_str());
            proof {
                reveal(cons);
                reveal(one);
                reveal(join);
                assert(token_views(out@) =~= before + shape(node@));
            }
        },
        _ => {},
    }
}

/// Puts the tokens of a tree that is a `Float` at the end of `out`.
fn write_float(node: &AstNode, out: &mut Vec<(String, String)>)
    requires
        well_formed(node@),
        node is Float,
    ensures
        token_views(final(out)@) == token_views(old(out)@) + render(node@),
    decreases node, 0int,
{
    let ghost before = token_views(out@);
    proof {
        lemma_render(node@);
        lemma_wf(node@);
    }
    match node {
        AstNode::Float(t) => {
            put(out, "FLOAT", t.as_str());
            proof {
                reveal(cons);
                reveal(one);
                reveal(join);
                assert(token_views(out@) =~= before + shape(node@));
            }
        },
        _ => {},
    }
}

/// Puts the tokens of a tree that is a `String` at the end of `out`.
fn write_string(node: &AstNode, out: &mut Vec<(String, String)>)
    requires
        well_formed(node@),
        node is String,
    ensures
        token_views(final(out)@) == token_views(old(out)@) + render(node@),
    decreases node, 0int,
{
    let ghost before = token_views(out@);
    proof {
        lemma_render(node@);
        lemma_wf(node@);
    }
    match node {
        AstNode::String(s) => {
            put(out, "STRING", s.as_str());
            proof {
                reveal(cons);
                reveal(one);
                reveal(join);
                assert(token_views(out@) =~= before + shape(node@));
            }
        },
        _ => {},
    }
}

/// Puts the tokens of a tree that is a `Regex` at the end of `out`.
fn write_regex(node: &AstNode, out: &mut Vec<(String, String)>)
    requires
        well_formed(node@),
        node is Regex,
    ensures
        token_views(final(out)@) == token_views(old(out)@) + render(node@),
    decreases node, 0int,
{
    let ghost before = token_views(out@);
    proof {
        lemma_render(node@);
        lemma_wf(node@);
    }
    match node {
        AstNode::Regex(p) => {
            put(out, "REGEX", p.as_str());
            proof {
                reveal(cons);
                reveal(one);
                reveal(join);
                assert(token_views(out@) =~= before + shape(node@));
            }
        },
        _ => {},
    }
}

/// Puts the tokens of a tree that is a `Boolean` at the end of `out`.
fn write_boolean(node: &AstNode, out: &mut Vec<(String, String)>)
    requires
        well_formed(node@),
        node is Boolean,
    ensures
        token_views(final(out)@) == token_views(old(out)@) + render(node@),
    decreases node, 0int,
{
    let ghost before = token_views(out@);
    proof {
        lemma_render(node@);
        lemma_wf(node@);
    }
    match node {
        AstNode::Boolean(b) => {
            if *b {
                put(out, "BOOL", "true");
            } else {
                put(out, "BOOL", "false");
            }
            proof {
                reveal(cons);
                reveal(one);
                reveal(join);
                assert(token_views(out@) =~= before + shape(node@));
            }
        },
        _ => {},
    }
}

/// Puts the tokens of a tree that is a `Identifier` at the end of `out`.
fn write_identifier(node: &AstNode, out: &mut Vec<(String, String)>)
    requires
        well_formed(node@),
        node is Identifier,
    ensures
        token_views(final(out)@) == token_views(old(out)@) + render(node@),
    decreases node, 0int,
{
    let ghost before = token_views(out@);
    proof {
        lemma_render(node@);
        lemma_wf(node@);
    }
    match node {
        AstNode::Identifier(name) => {
            put(out, "ID", name.as_str());
            proof {
                reveal(cons);
                reveal(one);
                reveal(join);
                assert(token_views(out@) =~= before + shape(node@));
            }
        },
        _ => {},
    }
}

/// Puts the tokens of a tree that is a `BinaryOp` at the end of `out`.
fn write_binary_op(node: &AstNode, out: &mut Vec<(String, String)>)
    requires
        well_formed(node@),
        node is BinaryOp,
    ensures
        token_views(final(out)@) == token_views(old(out)@) + render(node@),
    decreases node, 0int,
{
    let ghost before = token_views(out@);
    proof {
        lemma_render(node@);
        lemma_wf(node@);
    }
    match node {
        AstNode::BinaryOp { op, left, right } => {
            write_wrapped(left, out);
            put(out, "OP", op.as_str());
            write_wrapped(right, out);
            proof {
                reveal(cons);
                reveal(one);
                reveal(join);
                assert(token_views(out@) =~= before + shape(node@));
            }
        },
        _ => {},
    }
}

/// Puts the tokens of a tree that is a `UnaryOpTT` at the end of `out`.
fn write_unary_op_t_t(node: &AstNode, out: &mut Vec<(String, String)>)
    requires
        well_formed(node@),
        node is UnaryOpTT,
    ensures
        token_views(final(out)@) == token_views(old(out)@) + render(node@),
    decreases node, 0int,
{
    let ghost before = token_views(out@);
    proof {
        lemma_render(node@);
        lemma_wf(node@);
    }
    match node {
        AstNode::UnaryOpTT { op, var } => {
            write_wrapped(var, out);
            put(out, "OP", op.as_str());
            proof {
                reveal(cons);
                reveal(one);
                reveal(join);
                assert(token_views(out@) =~= before + shape(node@));
            }
        },
        _ => {},
    }
}

/// Puts the tokens of a tree that is a `Assign` at the end of `out`.
fn write_assign(node: &AstNode, out: &mut Vec<(String, String)>)
    requires
        well_formed(node@),
        node is Assign,
    ensures
        token_views(final(out)@) == token_views(old(out)@) + render(node@),
    decreases node, 0int,
{
    let ghost before = token_views(out@);
    proof {
        lemma_render(node@);
        lemma_wf(node@);
    }
    match node {
        AstNode::Assign { left, right } => {
            write_wrapped(left, out);
            put(out, "ASSIGN", "=");
            write_wrapped(right, out);
            proof {
                reveal(cons);
                reveal(one);
                reveal(join);
                assert(token_views(out@) =~= before + shape(node@));
            }
        },
        _ => {},
    }
}

/// Puts the tokens of a tree that is a `Index` at the end of `out`.
fn write_index(node: &AstNode, out: &mut Vec<(String, String)>)
    requires
        well_formed(node@),
        node is Index,
    ensures
        token_views(final(out)@) == token_views(old(out)@) + render(node@),
    decreases node, 0int,
{
    let ghost before = token_views(out@);
    proof {
        lemma_render(node@);
        lemma_wf(node@);
    }
    match node {
        AstNode::Index { array, index } => {
            write_wrapped(array, out);
            put(out, "LBRACKET", "[");
            write_wrapped(index, out);
            put(out, "RBRACKET", "]");
            proof {
                reveal(cons);
                reveal(one);
                reveal(join);
                assert(token_views(out@) =~= before + shape(node@));
            }
        },
        _ => {},
    }
}

/// Puts the tokens of a tree that is a `Array` at the end of `out`.
fn write_array(node: &AstNode, out: &mut Vec<(String, String)>)
    requires
        well_formed(node@),
        node is Array,
    ensures
        token_views(final(out)@) == token_views(old(out)@) + render(node@),
    decreases node, 0int,
{
    let ghost before = token_views(out@);
    proof {
        lemma_render(node@);
        lemma_wf(node@);
    }
    match node {
        AstNode::Array(items) => {
            put(out, "LBRACKET", "[");
            write_commas(items, out);
            put(out, "RBRACKET", "]");
            proof {
                reveal(cons);
                reveal(one);
                reveal(join);
                assert(token_views(out@) =~= before + shape(node@));
            }
        },
        _ => {},
    }
}

/// Puts the tokens of a tree that is a `MethodCall` at the end of `out`.
fn write_method_call(node: &AstNode, out: &mut Vec<(String, String)>)
    requires
        well_formed(node@),
        node is MethodCall,
    ensures
        token_views(final(out)@) == token_views(old(out)@) + render(node@),
    decreases node, 0int,
{
    let ghost before = token_views(out@);
    proof {
        lemma_render(node@);
        lemma_wf(node@);
    }
    match node {
        AstNode::MethodCall { object, method, args } => {
            write_wrapped(object, out);
            put(out, "DOT", ".");
            put(out, "ID", method.as_str());
            put(out, "LPAREN", "(");
            write_commas(args, out);
            put(out, "RPAREN", ")");
            proof {
                reveal(cons);
                reveal(one);
                reveal(join);
                assert(token_views(out@) =~= before + shape(node@));
            }
        },
        _ => {},
    }
}

/// Puts the tokens of a tree that is a `FunctionCall` at the end of `out`.
fn write_function_call(node: &AstNode, out: &mut Vec<(String, String)>)
    requires
        well_formed(node@),
        node is FunctionCall,
    ensures
        token_views(final(out)@) == token_views(old(out)@) + render(node@),
    decreases node, 0int,
{
    let ghost before = token_views(out@);
    proof {
        lemma_render(node@);
        lemma_wf(node@);
    }
    match node {
        AstNode::FunctionCall { name, args } => {
            put(out, "ID", name.as_str());
            put(out, "LPAREN", "(");
            write_call_list(args, out);
            put(out, "RPAREN", ")");
            proof {
                reveal(cons);
                reveal(one);
                reveal(join);
                assert(token_views(out@) =~= before + shape(node@));
            }
        },
        _ => {},
    }
}

/// Puts the tokens of a tree that is a `If` at the end of `out`.
fn write_if(node: &AstNode, out: &mut Vec<(String, String)>)
    requires
        well_formed(node@),
        node is If,
    ensures
        token_views(final(out)@) == token_views(old(out)@) + render(node@),
    decreases node, 0int,
{
    let ghost before = token_views(out@);
    proof {
        lemma_render(node@);
        lemma_wf(node@);
    }
    match node {
        AstNode::If { condition, body, else_body } => {
            put(out, "KEYWORD", "if");
            put(out, "LPAREN", "(");
            write_wrapped(condition, out);
            put(out, "RPAREN", ")");
            write_block(body, out);
            write_else(else_body, out);
            proof {
                reveal(cons);
                reveal(one);
                reveal(join);
                assert(token_views(out@) =~= before + shape(node@));
            }
        },
        _ => {},
    }
}

/// Puts the tokens of a tree that is a `Print` at the end of `out`.
fn write_print(node: &AstNode, out: &mut Vec<(String, String)>)
    requires
        well_formed(node@),
        node is Print,
    ensures
        token_views(final(out)@) == token_views(old(out)@) + render(node@),
    decreases node, 0int,
{
    let ghost before = token_views(out@);
    proof {
        lemma_render(node@);
        lemma_wf(node@);
    }
    match node {
        AstNode::Print { left } => {
            put(out, "KEYWORD", "print");
            put(out, "LPAREN", "(");
            write_wrapped(left, out);
            put(out, "RPAREN", ")");
            proof {
                reveal(cons);
                reveal(one);
                reveal(join);
                assert(token_views(out@) =~= before + shape(node@));
            }
        },
        _ => {},
    }
}

/// Puts the tokens of a tree that is a `Let` at the end of `out`.
fn write_let(node: &AstNode, out: &mut Vec<(String, String)>)
    requires
        well_formed(node@),
        node is Let,
    ensures
        token_views(final(out)@) == token_views(old(out)@) + render(node@),
    decreases node, 0int,
{
    let ghost before = token_views(out@);
    proof {
        lemma_render(node@);
        lemma_wf(node@);
    }
    match node {
        AstNode::Let { name, is_const, var_type, var_value } => {
            put(out, "KEYWORD", "let");
            put(out, "ID", name.as_str());
            put(out, "COLON", ":");
            match var_type {
                Some(t) => {
                    put(out, "TYPES", type_word(*t));
                },
                None => {},
            }
            if *is_const {
                put(out, "OP", "&");
            }
            put(out, "ASSIGN", "=");
            write_wrapped(var_value, out);
            proof {
                reveal(cons);
                reveal(one);
                reveal(join);
                assert(token_views(out@) =~= before + shape(node@));
            }
        },
        _ => {},
    }
}

/// Puts the tokens of a tree that is a `Import` at the end of `out`.
fn write_import(node: &AstNode, out: &mut Vec<(String, String)>)
    requires
        well_formed(node@),
        node is Import,
    ensures
        token_views(final(out)@) == token_views(old(out)@) + render(node@),
    decreases node, 0int,
{
    let ghost before = token_views(out@);
    proof {
        lemma_render(node@);
        lemma_wf(node@);
    }
    match node {
        AstNode::Import { path } => {
            put(out, "KEYWORD", "import");
            put(out, "STRING", path.as_str());
            proof {
                reveal(cons);
                reveal(one);
                reveal(join);
                assert(token_views(out@) =~= before + shape(node@));
            }
        },
        _ => {},
    }
}

/// Puts the tokens of a tree that is a `Input` at the end of `out`.
fn write_input(node: &AstNode, out: &mut Vec<(String, String)>)
    requires
        well_formed(node@),
        node is Input,
    ensures
        token_views(final(out)@) == token_views(old(out)@) + render(node@),
    decreases node, 0int,
{
    let ghost before = token_views(out@);
    proof {
        lemma_render(node@);
        lemma_wf(node@);
    }
    match node {
        AstNode::Input { placeholder } => {
            put(out, "KEYWORD", "input");
            put(out, "LPAREN", "(");
            put(out, "STRING", placeholder.as_str());
            put(out, "RPAREN", ")");
            proof {
                reveal(cons);
                reveal(one);
                reveal(join);
                assert(token_views(out@) =~= before + shape(node@));
            }
        },
        _ => {},
    }
}

/// Puts the tokens of a tree that is a `Random` at the end of `out`.
fn write_random(node: &AstNode, out: &mut Vec<(String, String)>)
    requires
        well_formed(node@),
        node is Random,
    ensures
        token_views(final(out)@) == token_views(old(out)@) + render(node@),
    decreases node, 0int,
{
    let ghost before = token_views(out@);
    proof {
        lemma_render(node@);
        lemma_wf(node@);
    }
    match node {
        AstNode::Random { left, right } => {
            put(out, "KEYWORD", "random");
            put(out, "LPAREN", "(");
            write_wrapped(left, out);
            put(out, "COMMA", ",");
            write_wrapped(right, out);
            put(out, "RPAREN", ")");
            proof {
                reveal(cons);
                reveal(one);
                reveal(join);
                assert(token_views(out@) =~= before + shape(node@));
            }
        },
        _ => {},
    }
}

/// Puts the tokens of a tree that is a `Delete` at the end of `out`.
fn write_delete(node: &AstNode, out: &mut Vec<(String, String)>)
    requires
        well_formed(node@),
        node is Delete,
    ensures
        token_views(final(out)@) == token_views(old(out)@) + render(node@),
    decreases node, 0int,
{
    let ghost before = token_views(out@);
    proof {
        lemma_render(node@);
        lemma_wf(node@);
    }
    match node {
        AstNode::Delete(operand) => {
            put(out, "KEYWORD", "del");
            put(out, "LPAREN", "(");
            write_wrapped(operand, out);
            put(out, "RPAREN", ")");
            proof {
                reveal(cons);
                reveal(one);
                reveal(join);
                assert(token_views(out@) =~= before + shape(node@));
            }
        },
        _ => {},
    }
}

/// Puts the tokens of a tree that is a `While` at the end of `out`.
fn write_while(node: &AstNode, out: &mut Vec<(String, String)>)
    requires
        well_formed(node@),
        node is While,
    ensures
        token_views(final(out)@) == token_views(old(out)@) + render(node@),
    decreases node, 0int,
{
    let ghost before = token_views(out@);
    proof {
        lemma_render(node@);
        lemma_wf(node@);
    }
    match node {
        AstNode::While { condition, body } => {
            put(out, "KEYWORD", "while");
            put(out, "LPAREN", "(");
            write_wrapped(condition, out);
            put(out, "RPAREN", ")");
            write_block(body, out);
            proof {
                reveal(cons);
                reveal(one);
                reveal(join);
                assert(token_views(out@) =~= before + shape(node@));
            }
        },
        _ => {},
    }
}

/// Puts the tokens of a tree that is a `For` at the end of `out`.
fn write_for(node: &AstNode, out: &mut Vec<(String, String)>)
    requires
        well_formed(node@),
        node is For,
    ensures
        token_views(final(out)@) == token_views(old(out)@) + render(node@),
    decreases node, 0int,
{
    let ghost before = token_views(out@);
    proof {
        lemma_render(node@);
        lemma_wf(node@);
    }
    match node {
        AstNode::For { init, condition, increment, body } => {
            put(out, "KEYWORD", "for");
            put(out, "LPAREN", "(");
            write_wrapped(init, out);
            put(out, "COMMA", ",");
            write_wrapped(condition, out);
            put(out, "COMMA", ",");
            write_wrapped(increment, out);
            put(out, "RPAREN", ")");
            write_block(body, out);
            proof {
                reveal(cons);
                reveal(one);
                reveal(join);
                assert(token_views(out@) =~= before + shape(node@));
            }
        },
        _ => {},
    }
}

/// Puts the tokens of a tree that is a `ForIn` at the end of `out`.
fn write_for_in(node: &AstNode, out: &mut Vec<(String, String)>)
    requires
        well_formed(node@),
        node is ForIn,
    ensures
        token_views(final(out)@) == token_views(old(out)@) + render(node@),
    decreases node, 0int,
{
    let ghost before = token_views(out@);
    proof {
        lemma_render(node@);
        lemma_wf(node@);
    }
    match node {
        AstNode::ForIn { var, iterable, body } => {
            put(out, "KEYWORD", "for");
            put(out, "LPAREN", "(");
            put(out, "ID", var.as_str());
            put(out, "KEYWORD", "in");
            write_wrapped(iterable, out);
            put(out, "RPAREN", ")");
            write_block(body, out);
            proof {
                reveal(cons);
                reveal(one);
                reveal(join);
                assert(token_views(out@) =~= before + shape(node@));
            }
        },
        _ => {},
    }
}

/// Puts the tokens of a tree that is a `Return` at the end of `out`.
fn write_return(node: &AstNode, out: &mut Vec<(String, String)>)
    requires
        well_formed(node@),
        node is Return,
    ensures
        token_views(final(out)@) == token_views(old(out)@) + render(node@),
    decreases node, 0int,
{
    let ghost before = token_views(out@);
    proof {
        lemma_render(node@);
        lemma_wf(node@);
    }
    match node {
        AstNode::Return(value) => {
            put(out, "KEYWORD", "return");
            write_wrapped(value, out);
            proof {
                reveal(cons);
                reveal(one);
                reveal(join);
                assert(token_views(out@) =~= before + shape(node@));
            }
        },
        _ => {},
    }
}

/// Puts the tokens of a tree that is a `Function` at the end of `out`.
fn write_function(node: &AstNode, out: &mut Vec<(String, String)>)
    requires
        well_formed(node@),
        node is Function,
    ensures
        token_views(final(out)@) == token_views(old(out)@) + render(node@),
    decreases node, 0int,
{
    let ghost before = token_views(out@);
    proof {
        lemma_render(node@);
        lemma_wf(node@);
    }
    match node {
        AstNode::Function { name, params, body } => {
            put(out, "KEYWORD", "func");
            put(out, "ID", name.as_str());
            put(out, "LPAREN", "(");
            write_params(params, out);
            put(out, "RPAREN", ")");
            write_block(body, out);
            proof {
                reveal(cons);
                reveal(one);
                reveal(join);
                assert(token_views(out@) =~= before + shape(node@));
            }
        },
        _ => {},
    }
}

/// Puts the tokens of a tree that is a `ToType` at the end of `out`.
fn write_to_type(node: &AstNode, out: &mut Vec<(String, String)>)
    requires
        well_formed(node@),
        node is ToType,
    ensures
        token_views(final(out)@) == token_views(old(out)@) + render(node@),
    decreases node, 0int,
{
    let ghost before = token_views(out@);
    proof {
        lemma_render(node@);
        lemma_wf(node@);
    }
    match node {
        AstNode::ToType { types, expr } => {
            put(out, "KEYWORD", "to");
            put(out, "LPAREN", "(");
            put(out, "TYPES", type_word(*types));
            put(out, "COMMA", ",");
            write_wrapped(expr, out);
            put(out, "RPAREN", ")");
            proof {
                reveal(cons);
                reveal(one);
                reveal(join);
                assert(token_views(out@) =~= before + shape(node@));
            }
        },
        _ => {},
    }
}

/// Puts the tokens of a tree that is a `Sleep` at the end of `out`.
fn write_sleep(node: &AstNode, out: &mut Vec<(String, String)>)
    requires
        well_formed(node@),
        node is Sleep,
    ensures
        token_views(final(out)@) == token_views(old(out)@) + render(node@),
    decreases node, 0int,
{
    let ghost before = token_views(out@);
    proof {
        lemma_render(node@);
        lemma_wf(node@);
    }
    match node {
        AstNode::Sleep { expr } => {
            put(out, "KEYWORD", "sleep");
            put(out, "LPAREN", "(");
            write_wrapped(expr, out);
            put(out, "RPAREN", ")");
            proof {
                reveal(cons);
                reveal(one);
                reveal(join);
                assert(token_views(out@) =~= before + shape(node@));
            }
        },
        _ => {},
    }
}

/// Puts the tokens of a tree that is a `TypeFunc` at the end of `out`.
fn write_type_func(node: &AstNode, out: &mut Vec<(String, String)>)
    requires
        well_formed(node@),
        node is TypeFunc,
    ensures
        token_views(final(out)@) == token_views(old(out)@) + render(node@),
    decreases node, 0int,
{
    let ghost before = token_views(out@);
    proof {
        lemma_render(node@);
        lemma_wf(node@);
    }
    match node {
        AstNode::TypeFunc { expr } => {
            put(out, "KEYWORD", "type");
            put(out, "LPAREN", "(");
            write_wrapped(expr, out);
            put(out, "RPAREN", ")");
            proof {
                reveal(cons);
                reveal(one);
                reveal(join);
                assert(token_views(out@) =~= before + shape(node@));
            }
        },
        _ => {},
    }
}

/// Puts the tokens of a tree that is a `CompileAll` at the end of `out`.
fn write_compile_all(node: &AstNode, out: &mut Vec<(String, String)>)
    requires
        well_formed(node@),
        node is CompileAll,
    ensures
        token_views(final(out)@) == token_views(old(out)@) + render(node@),
    decreases node, 0int,
{
    let ghost before = token_views(out@);
    proof {
        lemma_render(node@);
        lemma_wf(node@);
    }
    match node {
        AstNode::CompileAll { expr, regex } => {
            put(out, "KEYWORD", "compile_all");
            put(out, "LPAREN", "(");
            write_wrapped(expr, out);
            put(out, "COMMA", ",");
            write_wrapped(regex, out);
            put(out, "RPAREN", ")");
            proof {
                reveal(cons);
                reveal(one);
                reveal(join);
                assert(token_views(out@) =~= before + shape(node@));
            }
        },
        _ => {},
    }
}

/// Puts the tokens of a tree that is a `Compile` at the end of `out`.
fn write_compile(node: &AstNode, out: &mut Vec<(String, String)>)
    requires
        well_formed(node@),
        node is Compile,
    ensures
        token_views(final(out)@) == token_views(old(out)@) + render(node@),
    decreases node, 0int,
{
    let ghost before = token_views(out@);
    proof {
        lemma_render(node@);
        lemma_wf(node@);
    }
    match node {
        AstNode::Compile { expr, regex } => {
            put(out, "KEYWORD", "compile");
            put(out, "LPAREN", "(");
            write_wrapped(expr, out);
            put(out, "COMMA", ",");
            write_wrapped(regex, out);
            put(out, "RPAREN", ")");
            proof {
                reveal(cons);
                reveal(one);
                reveal(join);
                assert(token_views(out@) =~= before + shape(node@));
            }
        },
        _ => {},
    }
}

/// Puts the tokens of a tree at the end of `out`.
fn write_node(node: &AstNode, out: &mut Vec<(String, String)>)
    requires
        well_formed(node@),
    ensures
        token_views(final(out)@) == token_views(old(out)@) + render(node@),
    decreases node, 1int,
{
    match node {
        AstNode::Number(_) => write_number(node, out),
        AstNode::Float(_) => write_float(node, out),
        AstNode::String(_) => write_string(node, out),
        AstNode::Regex(_) => write_regex(node, out),
        AstNode::Boolean(_) => write_boolean(node, out),
        AstNode::Identifier(_) => write_identifier(node, out),
        AstNode::BinaryOp { .. } => write_binary_op(node, out),
        AstNode::UnaryOpTT { .. } => write_unary_op_t_t(node, out),
        AstNode::Assign { .. } => write_assign(node, out),
        AstNode::Index { .. } => write_index(node, out),
        AstNode::Array(_) => write_array(node, out),
        AstNode::MethodCall { .. } => write_method_call(node, out),
        AstNode::FunctionCall { .. } => write_function_call(node, out),
        AstNode::If { .. } => write_if(node, out),
        AstNode::Print { .. } => write_print(node, out),
        AstNode::Let { .. } => write_let(node, out),
        AstNode::Import { .. } => write_import(node, out),
        AstNode::Input { .. } => write_input(node, out),
        AstNode::Random { .. } => write_random(node, out),
        AstNode::Delete(_) => write_delete(node, out),
        AstNode::While { .. } => write_while(node, out),
        AstNode::For { .. } => write_for(node, out),
        AstNode::ForIn { .. } => write_for_in(node, out),
        AstNode::Return(_) => write_return(node, out),
        AstNode::Function { .. } => write_function(node, out),
        AstNode::ToType { .. } => write_to_type(node, out),
        AstNode::Sleep { .. } => write_sleep(node, out),
        AstNode::TypeFunc { .. } => write_type_func(node, out),
        AstNode::CompileAll { .. } => write_compile_all(node, out),
        AstNode::Compile { .. } => write_compile(node, out),
        AstNode::Void => {
            proof {
                lemma_render(node@);
                assert(token_views(out@) =~= token_views(old(out)@) + shape(node@));
            }
        },
    }
}

/// The canonical form of a program as tokens: every operand and every
/// statement stands between parentheses. The parser gives back the same
/// program for it.
pub fn render_tokens(nodes: &Vec<AstNode>) -> (r: Vec<(String, String)>)
    requires
        all_well_formed(nodes_view(nodes@), 0),
    ensures
        token_views(r@) == render_program(nodes_view(nodes@)),
{
    let mut out: Vec<(String, String)> = Vec::new();
    proof {
        assert(token_views(out@) =~= Seq::empty());
    }
    write_stmts(nodes, &mut out);
    proof {
        assert(token_views(out@) =~= render_program(nodes_view(nodes@)));
    }
    out
}

/// A token as source text writes it: its lexeme, between double quotes for
/// a string literal and between backslashes for a regex literal.
pub open spec fn written(t: (Seq<char>, Seq<char>)) -> Seq<char> {
    if t.0 == "STRING"@ {
        "\""@ + t.1 + "\""@
    } else if t.0 == "REGEX"@ {
        "\\"@ + t.1 + "\\"@
    } else {
        t.1
    }
}

/// The tokens from `from` on as source text: each as it is written, and a
/// blank after it.
pub open spec fn source_text(toks: Tokens, from: int) -> Seq<char>
    decreases toks.len() - from,
{
    if from < 0 || from >= toks.len() {
        Seq::empty()
    } else {
        written(toks[from]) + " "@ + source_text(toks, from + 1)
    }
}

/// Tokens as source text.
pub fn source_of(tokens: &Vec<(String, String)>) -> (r: String)
    ensures
        r@ == source_text(token_views(tokens@), 0),
{
    let mut out = String::new();
    let mut i: usize = 0;
    proof {
        assert(out@ + source_text(token_views(tokens@), 0) =~= source_text(
            token_views(tokens@),
            0,
        ));
    }
    while i < tokens.len()
        invariant
            i <= tokens.len(),
            out@ + source_text(token_views(tokens@), i as int) == source_text(
                token_views(tokens@),
                0,
            ),
        decreases tokens.len() - i,
    {
        let ghost before = out@;
        let tok = &tokens[i];
        proof {
            assert(token_views(tokens@)[i as int] == (tok.0@, tok.1@));
        }
        if text_is(tok.0.as_str(), "STRING") {
            out.append("\"");
            out.append(tok.1.as_str());
            out.append("\"");
        } else if text_is(tok.0.as_str(), "REGEX") {
            out.append("\\");
            out.append(tok.1.as_str());
            out.append("\\");
        } else {
            out.append(tok.1.as_str());
        }
        out.append(" ");
        proof {
            assert(out@ =~= before + (written((tok.0@, tok.1@)) + " "@));
            assert(out@ + source_text(token_views(tokens@), i + 1) =~= before + source_text(
                token_views(tokens@),
                i as int,
            ));
        }
        i = i + 1;
    }
    proof {
        assert(out@ + source_text(token_views(tokens@), i as int) =~= out@);
    }
    out
}

/// The canonical form of a program as source text.
pub fn render_source(nodes: &Vec<AstNode>) -> (r: String)
    requires
        all_well_formed(nodes_view(nodes@), 0),
    ensures
        r@ == source_text(render_program(nodes_view(nodes@)), 0),
{
    let tokens = render_tokens(nodes);
    source_of(&tokens)
}

/// The canonical form of a token list that parses: the tokens of the
/// program that the parser gives for it, written down with every operand
/// and every statement between parentheses. The canonical form parses as
/// the same program. A token list that does not parse gives the diagnostic
/// of the parser.
pub fn canonical_tokens(tokens: Vec<(String, String)>) -> (r: Result<
    Vec<(String, String)>,
    Vec<ParserError>,
>)
    ensures
        match r {
            Ok(canon) => parse_tokens(token_views(tokens@)) matches Ok(nodes) && token_views(
                canon@,
            ) == render_program(nodes) && parse_tokens(token_views(canon@)) == parse_tokens(
                token_views(tokens@),
            ),
            Err(errors) => errors.len() == 1 && parse_tokens(token_views(tokens@)) == Err::<
                Seq<Ast>,
                ParseErr,
            >(errors[0]@),
        },
{
    let ghost toks = token_views(tokens@);
    let mut parser = Parser::new(tokens);
    match parser.parse() {
        Ok(nodes) => {
            proof {
                lemma_parsed_is_well_formed(toks);
                lemma_parse_round_trip(nodes_view(nodes@));
            }
            Ok(render_tokens(&nodes))
        },
        Err(errors) => Err(errors),
    }
}

} // verus!
