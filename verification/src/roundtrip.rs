//! Rendering a syntax tree as tokens, and the proof that parsing the
//! rendering gives the tree back.

use crate::ast::{Ast, ParamView, Type};
use crate::errors::type_text;
use crate::grammar::{
    at, at_word, before, expect, g_array, g_array_more, g_base, g_block, g_block_items,
    g_call_args, g_comma_items, g_comparison, g_comparison_rest, g_expr, g_expr_comma,
    g_expr_rest, g_factor, g_for, g_for_in, g_for_tail, g_for_three, g_function, g_keyword,
    g_keyword_more, g_let, g_method_args, g_named, g_one_arg, g_one_closed, g_optional_else,
    g_param, g_params, g_params_more, g_program, g_question, g_suffix, g_term, g_term_rest, g_to,
    g_two_args, g_type, is_additive, is_comparison, is_multiplicative, is_step, parse_tokens,
    type_of_word, ParseErr, Parsed, Tokens,
};
use crate::text::{
    all_digits, decimal, digit_char, digits_of, digits_value, int_of_text, is_decimal,
};
use vstd::prelude::*;

verus! {

/// A token.
pub type Tok = (Seq<char>, Seq<char>);

/// The opening parenthesis.
pub open spec fn lp() -> Tok {
    ("LPAREN"@, "("@)
}

/// The closing parenthesis.
pub open spec fn rp() -> Tok {
    ("RPAREN"@, ")"@)
}

/// The opening brace.
pub open spec fn lbrace() -> Tok {
    ("LBRACE"@, "{"@)
}

/// The closing brace.
pub open spec fn rbrace() -> Tok {
    ("RBRACE"@, "}"@)
}

/// The opening bracket.
pub open spec fn lbracket() -> Tok {
    ("LBRACKET"@, "["@)
}

/// The closing bracket.
pub open spec fn rbracket() -> Tok {
    ("RBRACKET"@, "]"@)
}

/// The comma.
pub open spec fn comma() -> Tok {
    ("COMMA"@, ","@)
}

/// The colon.
pub open spec fn colon() -> Tok {
    ("COLON"@, ":"@)
}

/// The dot.
pub open spec fn dot() -> Tok {
    ("DOT"@, "."@)
}

/// The sign of assignment.
pub open spec fn gets() -> Tok {
    ("ASSIGN"@, "="@)
}

/// A keyword.
pub open spec fn kw(word: Seq<char>) -> Tok {
    ("KEYWORD"@, word)
}

/// A name.
pub open spec fn name_tok(name: Seq<char>) -> Tok {
    ("ID"@, name)
}

/// An operator.
pub open spec fn op_tok(op: Seq<char>) -> Tok {
    ("OP"@, op)
}

/// The name of a type.
pub open spec fn type_tok(t: Type) -> Tok {
    ("TYPES"@, type_text(t))
}

/// A token and then more tokens.
#[verifier::opaque]
pub open spec fn cons(t: Tok, rest: Tokens) -> Tokens {
    seq![t] + rest
}

/// One token.
#[verifier::opaque]
pub open spec fn one(t: Tok) -> Tokens {
    seq![t]
}

/// Tokens and then more tokens.
#[verifier::opaque]
pub open spec fn join(first: Tokens, rest: Tokens) -> Tokens {
    first + rest
}

/// Whether the operator of a binary operation is one that the grammar has.
pub open spec fn is_binary(op: Seq<char>) -> bool {
    is_additive(op) || is_multiplicative(op) || is_comparison(op)
}

/// Whether a tree can be written down: every part of it is one that the
/// grammar can give.
#[verifier::opaque]
pub open spec fn well_formed(node: Ast) -> bool {
    wf_i(node)
}

/// Whether the trees of a list from `from` on can be written down.
#[verifier::opaque]
pub open spec fn all_well_formed(nodes: Seq<Ast>, from: int) -> bool {
    all_wf_i(nodes, from)
}

/// Whether a tree is one that the grammar can give, and its parts can be
/// written down.
pub open spec fn wf_shape(node: Ast) -> bool {
    match node {
        Ast::Number(_) => true,
        Ast::Float(t) => is_decimal(t),
        Ast::String(_) => true,
        Ast::Regex(_) => true,
        Ast::Boolean(_) => true,
        Ast::Identifier(_) => true,
        Ast::BinaryOp { op, left, right } => is_binary(op) && well_formed(*left) && well_formed(
            *right,
        ),
        Ast::UnaryOpTT { op, var } => is_step(op) && well_formed(*var),
        Ast::Assign { left, right } => well_formed(*left) && well_formed(*right),
        Ast::Index { array, index } => well_formed(*array) && well_formed(*index),
        Ast::Array(items) => all_well_formed(items, 0),
        Ast::MethodCall { object, method, args } => well_formed(*object) && all_well_formed(args, 0),
        Ast::FunctionCall { name, args } => all_well_formed(args, 0),
        Ast::If { condition, body, else_body } => well_formed(*condition) && all_well_formed(
            body,
            0,
        ) && match else_body {
            Some(nodes) => all_well_formed(nodes, 0),
            None => true,
        },
        Ast::Print { left } => well_formed(*left),
        Ast::Let { name, is_const, var_type, var_value } => var_type is Some && well_formed(
            *var_value,
        ),
        Ast::Import { path } => true,
        Ast::Input { placeholder } => true,
        Ast::Random { left, right } => well_formed(*left) && well_formed(*right),
        Ast::Delete(operand) => well_formed(*operand),
        Ast::While { condition, body } => well_formed(*condition) && all_well_formed(body, 0),
        Ast::For { init, condition, increment, body } => well_formed(*init) && well_formed(
            *condition,
        ) && well_formed(*increment) && all_well_formed(body, 0),
        Ast::ForIn { var, iterable, body } => well_formed(*iterable) && all_well_formed(body, 0),
        Ast::Return(value) => well_formed(*value),
        Ast::Function { name, params, body } => all_well_formed(body, 0),
        Ast::ToType { types, expr } => well_formed(*expr),
        Ast::Sleep { expr } => well_formed(*expr),
        Ast::TypeFunc { expr } => well_formed(*expr),
        Ast::CompileAll { expr, regex } => well_formed(*expr) && well_formed(*regex),
        Ast::Compile { expr, regex } => well_formed(*expr) && well_formed(*regex),
        _ => false,
    }
}

/// `well_formed`, by recursion over the tree.
pub open spec fn wf_i(node: Ast) -> bool
    decreases node,
{
    match node {
        Ast::Number(_) => true,
        Ast::Float(t) => is_decimal(t),
        Ast::String(_) => true,
        Ast::Regex(_) => true,
        Ast::Boolean(_) => true,
        Ast::Identifier(_) => true,
        Ast::BinaryOp { op, left, right } => is_binary(op) && wf_i(*left) && wf_i(
            *right,
        ),
        Ast::UnaryOpTT { op, var } => is_step(op) && wf_i(*var),
        Ast::Assign { left, right } => wf_i(*left) && wf_i(*right),
        Ast::Index { array, index } => wf_i(*array) && wf_i(*index),
        Ast::Array(items) => all_wf_i(items, 0),
        Ast::MethodCall { object, method, args } => wf_i(*object) && all_wf_i(args, 0),
        Ast::FunctionCall { name, args } => all_wf_i(args, 0),
        Ast::If { condition, body, else_body } => wf_i(*condition) && all_wf_i(
            body,
            0,
        ) && match else_body {
            Some(nodes) => all_wf_i(nodes, 0),
            None => true,
        },
        Ast::Print { left } => wf_i(*left),
        Ast::Let { name, is_const, var_type, var_value } => var_type is Some && wf_i(
            *var_value,
        ),
        Ast::Import { path } => true,
        Ast::Input { placeholder } => true,
        Ast::Random { left, right } => wf_i(*left) && wf_i(*right),
        Ast::Delete(operand) => wf_i(*operand),
        Ast::While { condition, body } => wf_i(*condition) && all_wf_i(body, 0),
        Ast::For { init, condition, increment, body } => wf_i(*init) && wf_i(
            *condition,
        ) && wf_i(*increment) && all_wf_i(body, 0),
        Ast::ForIn { var, iterable, body } => wf_i(*iterable) && all_wf_i(body, 0),
        Ast::Return(value) => wf_i(*value),
        Ast::Function { name, params, body } => all_wf_i(body, 0),
        Ast::ToType { types, expr } => wf_i(*expr),
        Ast::Sleep { expr } => wf_i(*expr),
        Ast::TypeFunc { expr } => wf_i(*expr),
        Ast::CompileAll { expr, regex } => wf_i(*expr) && wf_i(*regex),
        Ast::Compile { expr, regex } => wf_i(*expr) && wf_i(*regex),
        _ => false,
    }
}

/// `all_well_formed`, by recursion over the list.
pub open spec fn all_wf_i(nodes: Seq<Ast>, from: int) -> bool
    decreases nodes, nodes.len() - from,
{
    if from < 0 || from >= nodes.len() {
        true
    } else {
        wf_i(nodes[from]) && all_wf_i(nodes, from + 1)
    }
}

/// The tokens of a tree, with every operand and every statement between
/// parentheses.
#[verifier::opaque]
pub open spec fn render(node: Ast) -> Tokens {
    render_i(node)
}

/// The tokens of a tree between parentheses.
#[verifier::opaque]
pub open spec fn wrap(node: Ast) -> Tokens {
    wrap_i(node)
}

/// The tokens of the statements from `from` on, each between parentheses.
#[verifier::opaque]
pub open spec fn stmts(nodes: Seq<Ast>, from: int) -> Tokens {
    stmts_i(nodes, from)
}

/// The tokens of the items from `from` on, each after a comma.
#[verifier::opaque]
pub open spec fn more(nodes: Seq<Ast>, from: int) -> Tokens {
    more_i(nodes, from)
}

/// The tokens of the arguments of a call from `from` on, with a comma
/// between each two.
#[verifier::opaque]
pub open spec fn call_list(nodes: Seq<Ast>, from: int) -> Tokens {
    call_list_i(nodes, from)
}

/// The tokens of a block.
pub open spec fn block(nodes: Seq<Ast>) -> Tokens {
    cons(lbrace(), join(stmts(nodes, 0), one(rbrace())))
}

/// The tokens of a list of items, with a comma between each two.
pub open spec fn commas(nodes: Seq<Ast>) -> Tokens {
    if nodes.len() == 0 {
        Seq::empty()
    } else {
        join(wrap(nodes[0]), more(nodes, 1))
    }
}

/// The tokens of an `else` and its block, if there is one.
pub open spec fn else_part(e: Option<Seq<Ast>>) -> Tokens {
    match e {
        Some(nodes) => cons(kw("else"@), block(nodes)),
        None => Seq::empty(),
    }
}

/// The tokens of a tree, by its kind.
pub open spec fn shape(node: Ast) -> Tokens {
    match node {
        Ast::Number(n) => one(("NUMBER"@, decimal(n as int))),
        Ast::Float(t) => one(("FLOAT"@, t)),
        Ast::String(s) => one(("STRING"@, s)),
        Ast::Regex(p) => one(("REGEX"@, p)),
        Ast::Boolean(b) => one(
            (
                "BOOL"@,
                if b {
                    "true"@
                } else {
                    "false"@
                },
            ),
        ),
        Ast::Identifier(name) => one(name_tok(name)),
        Ast::BinaryOp { op, left, right } => join(wrap(*left), cons(op_tok(op), wrap(*right))),
        Ast::UnaryOpTT { op, var } => join(wrap(*var), one(op_tok(op))),
        Ast::Assign { left, right } => join(wrap(*left), cons(gets(), wrap(*right))),
        Ast::Index { array, index } => join(wrap(*array), cons(
            lbracket(),
            join(wrap(*index), one(rbracket())),
        )),
        Ast::Array(items) => cons(lbracket(), join(commas(items), one(rbracket()))),
        Ast::MethodCall { object, method, args } => join(wrap(*object), cons(
            dot(),
            cons(name_tok(method), cons(lp(), join(commas(args), one(rp())))),
        )),
        Ast::FunctionCall { name, args } => cons(
            name_tok(name),
            cons(lp(), join(call_list(args, 0), one(rp()))),
        ),
        Ast::If { condition, body, else_body } => cons(
            kw("if"@),
            join(one_arg(wrap(*condition)), (join(block(body), else_part(else_body)))),
        ),
        Ast::Print { left } => cons(kw("print"@), one_arg(wrap(*left))),
        Ast::Let { name, is_const, var_type, var_value } => cons(
            kw("let"@),
            cons(
                name_tok(name),
                cons(
                    colon(),
                    cons(
                        type_tok(var_type->0),
                        join(const_part(is_const), cons(gets(), wrap(*var_value))),
                    ),
                ),
            ),
        ),
        Ast::Import { path } => cons(kw("import"@), one(("STRING"@, path))),
        Ast::Input { placeholder } => cons(
            kw("input"@),
            cons(lp(), cons(("STRING"@, placeholder), one(rp()))),
        ),
        Ast::Random { left, right } => cons(kw("random"@), two_args(wrap(*left), wrap(*right))),
        Ast::Delete(operand) => cons(kw("del"@), one_arg(wrap(*operand))),
        Ast::While { condition, body } => cons(kw("while"@), join(one_arg(wrap(*condition)), block(body))),
        Ast::For { init, condition, increment, body } => cons(
            kw("for"@),
            cons(
                lp(),
                join(wrap(*init), cons(
                    comma(),
                    join(wrap(*condition), cons(
                        comma(),
                        join(wrap(*increment), cons(rp(), block(body))),
                    )),
                )),
            ),
        ),
        Ast::ForIn { var, iterable, body } => cons(
            kw("for"@),
            cons(
                lp(),
                cons(name_tok(var), cons(kw("in"@), join(wrap(*iterable), cons(rp(), block(body))))),
            ),
        ),
        Ast::Return(value) => cons(kw("return"@), wrap(*value)),
        Ast::Function { name, params, body } => cons(
            kw("func"@),
            cons(name_tok(name), cons(lp(), join(params_toks(params), cons(rp(), block(body))))),
        ),
        Ast::ToType { types, expr } => cons(
            kw("to"@),
            cons(lp(), cons(type_tok(types), cons(comma(), join(wrap(*expr), one(rp()))))),
        ),
        Ast::Sleep { expr } => cons(kw("sleep"@), one_arg(wrap(*expr))),
        Ast::TypeFunc { expr } => cons(kw("type"@), one_arg(wrap(*expr))),
        Ast::CompileAll { expr, regex } => cons(kw("compile_all"@), two_args(wrap(*expr), wrap(*regex))),
        Ast::Compile { expr, regex } => cons(kw("compile"@), two_args(wrap(*expr), wrap(*regex))),
        _ => Seq::empty(),
    }
}

/// `render`, by recursion over the tree.
pub open spec fn render_i(node: Ast) -> Tokens
    decreases node, 0int,
{
    match node {
        Ast::Number(n) => one(("NUMBER"@, decimal(n as int))),
        Ast::Float(t) => one(("FLOAT"@, t)),
        Ast::String(s) => one(("STRING"@, s)),
        Ast::Regex(p) => one(("REGEX"@, p)),
        Ast::Boolean(b) => one(
            (
                "BOOL"@,
                if b {
                    "true"@
                } else {
                    "false"@
                },
            ),
        ),
        Ast::Identifier(name) => one(name_tok(name)),
        Ast::BinaryOp { op, left, right } => join(wrap_i(*left), cons(op_tok(op), wrap_i(*right))),
        Ast::UnaryOpTT { op, var } => join(wrap_i(*var), one(op_tok(op))),
        Ast::Assign { left, right } => join(wrap_i(*left), cons(gets(), wrap_i(*right))),
        Ast::Index { array, index } => join(wrap_i(*array), cons(
            lbracket(),
            join(wrap_i(*index), one(rbracket())),
        )),
        Ast::Array(items) => cons(lbracket(), join((if items.len() == 0 { Seq::<Tok>::empty() } else { join(wrap_i(items[0]), more_i(items, 1)) }), one(rbracket()))),
        Ast::MethodCall { object, method, args } => join(wrap_i(*object), cons(
            dot(),
            cons(name_tok(method), cons(lp(), join((if args.len() == 0 { Seq::<Tok>::empty() } else { join(wrap_i(args[0]), more_i(args, 1)) }), one(rp())))),
        )),
        Ast::FunctionCall { name, args } => cons(
            name_tok(name),
            cons(lp(), join(call_list_i(args, 0), one(rp()))),
        ),
        Ast::If { condition, body, else_body } => cons(
            kw("if"@),
            join(one_arg(wrap_i(*condition)), (join(cons(lbrace(), join(stmts_i(body, 0), one(rbrace()))), (match else_body { Some(nodes) => cons(kw("else"@), cons(lbrace(), join(stmts_i(nodes, 0), one(rbrace())))), None => Seq::<Tok>::empty() })))),
        ),
        Ast::Print { left } => cons(kw("print"@), one_arg(wrap_i(*left))),
        Ast::Let { name, is_const, var_type, var_value } => cons(
            kw("let"@),
            cons(
                name_tok(name),
                cons(
                    colon(),
                    cons(
                        type_tok(var_type->0),
                        join(const_part(is_const), cons(gets(), wrap_i(*var_value))),
                    ),
                ),
            ),
        ),
        Ast::Import { path } => cons(kw("import"@), one(("STRING"@, path))),
        Ast::Input { placeholder } => cons(
            kw("input"@),
            cons(lp(), cons(("STRING"@, placeholder), one(rp()))),
        ),
        Ast::Random { left, right } => cons(kw("random"@), two_args(wrap_i(*left), wrap_i(*right))),
        Ast::Delete(operand) => cons(kw("del"@), one_arg(wrap_i(*operand))),
        Ast::While { condition, body } => cons(kw("while"@), join(one_arg(wrap_i(*condition)), cons(lbrace(), join(stmts_i(body, 0), one(rbrace()))))),
        Ast::For { init, condition, increment, body } => cons(
            kw("for"@),
            cons(
                lp(),
                join(wrap_i(*init), cons(
                    comma(),
                    join(wrap_i(*condition), cons(
                        comma(),
                        join(wrap_i(*increment), cons(rp(), cons(lbrace(), join(stmts_i(body, 0), one(rbrace()))))),
                    )),
                )),
            ),
        ),
        Ast::ForIn { var, iterable, body } => cons(
            kw("for"@),
            cons(
                lp(),
                cons(name_tok(var), cons(kw("in"@), join(wrap_i(*iterable), cons(rp(), cons(lbrace(), join(stmts_i(body, 0), one(rbrace()))))))),
            ),
        ),
        Ast::Return(value) => cons(kw("return"@), wrap_i(*value)),
        Ast::Function { name, params, body } => cons(
            kw("func"@),
            cons(name_tok(name), cons(lp(), join(params_toks(params), cons(rp(), cons(lbrace(), join(stmts_i(body, 0), one(rbrace()))))))),
        ),
        Ast::ToType { types, expr } => cons(
            kw("to"@),
            cons(lp(), cons(type_tok(types), cons(comma(), join(wrap_i(*expr), one(rp()))))),
        ),
        Ast::Sleep { expr } => cons(kw("sleep"@), one_arg(wrap_i(*expr))),
        Ast::TypeFunc { expr } => cons(kw("type"@), one_arg(wrap_i(*expr))),
        Ast::CompileAll { expr, regex } => cons(kw("compile_all"@), two_args(wrap_i(*expr), wrap_i(*regex))),
        Ast::Compile { expr, regex } => cons(kw("compile"@), two_args(wrap_i(*expr), wrap_i(*regex))),
        _ => Seq::empty(),
    }
}

/// `wrap`, by recursion over the tree.
pub open spec fn wrap_i(node: Ast) -> Tokens
    decreases node, 1int,
{
    cons(lp(), join(render_i(node), one(rp())))
}

/// `stmts`, by recursion over the list.
pub open spec fn stmts_i(nodes: Seq<Ast>, from: int) -> Tokens
    decreases nodes, nodes.len() - from,
{
    if from < 0 || from >= nodes.len() {
        Seq::empty()
    } else {
        join(wrap_i(nodes[from]), stmts_i(nodes, from + 1))
    }
}

/// `more`, by recursion over the list.
pub open spec fn more_i(nodes: Seq<Ast>, from: int) -> Tokens
    decreases nodes, nodes.len() - from,
{
    if from < 0 || from >= nodes.len() {
        Seq::empty()
    } else {
        cons(comma(), join(wrap_i(nodes[from]), more_i(nodes, from + 1)))
    }
}

/// `call_list`, by recursion over the list.
pub open spec fn call_list_i(nodes: Seq<Ast>, from: int) -> Tokens
    decreases nodes, nodes.len() - from,
{
    if from < 0 || from >= nodes.len() {
        Seq::empty()
    } else if from == nodes.len() - 1 {
        wrap_i(nodes[from])
    } else {
        join(wrap_i(nodes[from]), cons(comma(), call_list_i(nodes, from + 1)))
    }
}

/// Whether `piece` stands in `toks` at `pos`.
#[verifier::opaque]
pub open spec fn holds(toks: Tokens, pos: int, piece: Tokens) -> bool {
    0 <= pos && pos + piece.len() <= toks.len() && toks.subrange(pos, pos + piece.len()) == piece
}

/// What `well_formed` says of a tree, one level down.
pub proof fn lemma_wf(node: Ast)
    ensures
        well_formed(node) == wf_shape(node),
{
    reveal(well_formed);
    reveal(all_well_formed);
}

/// What `all_well_formed` says of a list, one item on.
pub proof fn lemma_all_wf(nodes: Seq<Ast>, from: int)
    ensures
        all_well_formed(nodes, from) == if from < 0 || from >= nodes.len() {
            true
        } else {
            well_formed(nodes[from]) && all_well_formed(nodes, from + 1)
        },
{
    reveal(well_formed);
    reveal(all_well_formed);
}

/// The tokens of a tree are those of its kind.
pub proof fn lemma_render(node: Ast)
    ensures
        render(node) == shape(node),
{
    reveal(render);
    reveal(wrap);
    reveal(stmts);
    reveal(more);
    reveal(call_list);
}

/// The tokens of a tree between parentheses.
pub proof fn lemma_wrap(node: Ast)
    ensures
        wrap(node) == cons(lp(), join(render(node), one(rp()))),
        wrap(node).len() == render(node).len() + 2,
{
    reveal(render);
    reveal(wrap);
    reveal(cons);
    reveal(join);
    reveal(one);
}

/// The tokens of statements, one statement on.
pub proof fn lemma_stmts(nodes: Seq<Ast>, from: int)
    ensures
        stmts(nodes, from) == if from < 0 || from >= nodes.len() {
            Seq::<Tok>::empty()
        } else {
            join(wrap(nodes[from]), stmts(nodes, from + 1))
        },
{
    reveal(stmts);
    reveal(wrap);
}

/// The tokens of items after commas, one item on.
pub proof fn lemma_more(nodes: Seq<Ast>, from: int)
    ensures
        more(nodes, from) == if from < 0 || from >= nodes.len() {
            Seq::<Tok>::empty()
        } else {
            cons(comma(), join(wrap(nodes[from]), more(nodes, from + 1)))
        },
{
    reveal(more);
    reveal(wrap);
}

/// The tokens of arguments, one argument on.
pub proof fn lemma_call_list_shape(nodes: Seq<Ast>, from: int)
    ensures
        call_list(nodes, from) == if from < 0 || from >= nodes.len() {
            Seq::<Tok>::empty()
        } else if from == nodes.len() - 1 {
            wrap(nodes[from])
        } else {
            join(wrap(nodes[from]), cons(comma(), call_list(nodes, from + 1)))
        },
{
    reveal(call_list);
    reveal(wrap);
}

/// The tokens of parameters after commas, one parameter on.
pub proof fn lemma_params_more_shape(ps: Seq<ParamView>, from: int)
    ensures
        params_more(ps, from) == if from < 0 || from >= ps.len() {
            Seq::<Tok>::empty()
        } else {
            cons(comma(), join(param_toks(ps[from]), params_more(ps, from + 1)))
        },
{
    reveal(params_more);
}

/// The first token of a tree between parentheses that stands at `pos`.
pub proof fn lemma_wrap_first(toks: Tokens, pos: int, node: Ast)
    requires
        holds(toks, pos, wrap(node)),
    ensures
        0 <= pos < toks.len(),
        toks[pos] == lp(),
        wrap(node).len() >= 2,
{
    lemma_wrap(node);
    lemma_cons(toks, pos, lp(), join(render(node), one(rp())));
}

/// The first token of a piece that stands at `pos`, and the rest.
pub proof fn lemma_cons(toks: Tokens, pos: int, t: Tok, rest: Tokens)
    requires
        holds(toks, pos, cons(t, rest)),
    ensures
        0 <= pos < toks.len(),
        toks[pos] == t,
        holds(toks, pos + 1, rest),
        cons(t, rest).len() == rest.len() + 1,
{
    reveal(holds);
    reveal(cons);
    let piece = cons(t, rest);
    assert(toks[pos] == toks.subrange(pos, pos + piece.len())[0]);
    assert(toks.subrange(pos + 1, pos + 1 + rest.len()) =~= rest) by {
        assert forall|k: int| 0 <= k < rest.len() implies toks[pos + 1 + k] == rest[k] by {
            assert(toks[pos + 1 + k] == toks.subrange(pos, pos + piece.len())[1 + k]);
        }
    }
}

/// The two parts of a piece that stands at `pos`.
pub proof fn lemma_split(toks: Tokens, pos: int, a: Tokens, b: Tokens)
    requires
        holds(toks, pos, join(a, b)),
    ensures
        holds(toks, pos, a),
        holds(toks, pos + a.len(), b),
        (join(a, b)).len() == a.len() + b.len(),
{
    reveal(holds);
    reveal(join);
    let piece = join(a, b);
    assert(toks.subrange(pos, pos + a.len()) =~= a) by {
        assert forall|k: int| 0 <= k < a.len() implies toks[pos + k] == a[k] by {
            assert(toks[pos + k] == toks.subrange(pos, pos + piece.len())[k]);
        }
    }
    assert(toks.subrange(pos + a.len(), pos + a.len() + b.len()) =~= b) by {
        assert forall|k: int| 0 <= k < b.len() implies toks[pos + a.len() + k] == b[k] by {
            assert(toks[pos + a.len() + k] == toks.subrange(pos, pos + piece.len())[a.len() + k]);
        }
    }
}

/// The one token of a piece that stands at `pos`.
pub proof fn lemma_one(toks: Tokens, pos: int, t: Tok)
    requires
        holds(toks, pos, one(t)),
    ensures
        0 <= pos < toks.len(),
        toks[pos] == t,
        one(t).len() == 1,
{
    reveal(holds);
    reveal(one);
    assert(toks[pos] == toks.subrange(pos, pos + 1)[0]);
}

/// Nothing stands everywhere.
pub proof fn lemma_nothing(toks: Tokens, pos: int)
    requires
        0 <= pos <= toks.len(),
    ensures
        holds(toks, pos, Seq::empty()),
{
    reveal(holds);
    assert(toks.subrange(pos, pos) =~= Seq::<Tok>::empty());
}

/// A piece that stands at `pos` ends within the tokens.
pub proof fn lemma_within(toks: Tokens, pos: int, piece: Tokens)
    requires
        holds(toks, pos, piece),
    ensures
        0 <= pos,
        pos + piece.len() <= toks.len(),
{
    reveal(holds);
}

/// A number made of the length of a text and its first three characters:
/// texts with different marks are different texts.
pub open spec fn mark(s: Seq<char>) -> int {
    ((s.len() * 256 + (if s.len() > 0 {
        s[0] as int
    } else {
        0
    })) * 256 + (if s.len() > 1 {
        s[1] as int
    } else {
        0
    })) * 256 + (if s.len() > 2 {
        s[2] as int
    } else {
        0
    })
}

/// The kinds of tokens are spelled differently.
pub proof fn lemma_kinds()
    ensures
        mark("KEYWORD"@) == 122373465,
        mark("BOOL"@) == 71454543,
        mark("LPAREN"@) == 105664577,
        mark("RPAREN"@) == 106057793,
        mark("LBRACKET"@) == 139215442,
        mark("RBRACKET"@) == 139608658,
        mark("LBRACE"@) == 105661010,
        mark("RBRACE"@) == 106054226,
        mark("STRING"@) == 106124370,
        mark("REGEX"@) == 89277767,
        mark("NUMBER"@) == 105796941,
        mark("FLOAT"@) == 88493135,
        mark("ID"@) == 38355968,
        mark("OP"@) == 38752256,
        mark("ASSIGN"@) == 104944467,
        mark("DOT"@) == 54808404,
        mark("COMMA"@) == 88297293,
        mark("COLON"@) == 88297292,
        mark("TYPES"@) == 89413968,
        mark("ARROW"@) == 88166994,
{
    reveal_strlit("KEYWORD");
    reveal_strlit("BOOL");
    reveal_strlit("LPAREN");
    reveal_strlit("RPAREN");
    reveal_strlit("LBRACKET");
    reveal_strlit("RBRACKET");
    reveal_strlit("LBRACE");
    reveal_strlit("RBRACE");
    reveal_strlit("STRING");
    reveal_strlit("REGEX");
    reveal_strlit("NUMBER");
    reveal_strlit("FLOAT");
    reveal_strlit("ID");
    reveal_strlit("OP");
    reveal_strlit("ASSIGN");
    reveal_strlit("DOT");
    reveal_strlit("COMMA");
    reveal_strlit("COLON");
    reveal_strlit("TYPES");
    reveal_strlit("ARROW");
    assert("KEYWORD"@.len() == 7 && "KEYWORD"@[0] == 'K' && "KEYWORD"@[1] == 'E' && "KEYWORD"@[2] == 'Y');
    assert("BOOL"@.len() == 4 && "BOOL"@[0] == 'B' && "BOOL"@[1] == 'O' && "BOOL"@[2] == 'O');
    assert("LPAREN"@.len() == 6 && "LPAREN"@[0] == 'L' && "LPAREN"@[1] == 'P' && "LPAREN"@[2] == 'A');
    assert("RPAREN"@.len() == 6 && "RPAREN"@[0] == 'R' && "RPAREN"@[1] == 'P' && "RPAREN"@[2] == 'A');
    assert("LBRACKET"@.len() == 8 && "LBRACKET"@[0] == 'L' && "LBRACKET"@[1] == 'B' && "LBRACKET"@[2] == 'R');
    assert("RBRACKET"@.len() == 8 && "RBRACKET"@[0] == 'R' && "RBRACKET"@[1] == 'B' && "RBRACKET"@[2] == 'R');
    assert("LBRACE"@.len() == 6 && "LBRACE"@[0] == 'L' && "LBRACE"@[1] == 'B' && "LBRACE"@[2] == 'R');
    assert("RBRACE"@.len() == 6 && "RBRACE"@[0] == 'R' && "RBRACE"@[1] == 'B' && "RBRACE"@[2] == 'R');
    assert("STRING"@.len() == 6 && "STRING"@[0] == 'S' && "STRING"@[1] == 'T' && "STRING"@[2] == 'R');
    assert("REGEX"@.len() == 5 && "REGEX"@[0] == 'R' && "REGEX"@[1] == 'E' && "REGEX"@[2] == 'G');
    assert("NUMBER"@.len() == 6 && "NUMBER"@[0] == 'N' && "NUMBER"@[1] == 'U' && "NUMBER"@[2] == 'M');
    assert("FLOAT"@.len() == 5 && "FLOAT"@[0] == 'F' && "FLOAT"@[1] == 'L' && "FLOAT"@[2] == 'O');
    assert("ID"@.len() == 2 && "ID"@[0] == 'I' && "ID"@[1] == 'D');
    assert("OP"@.len() == 2 && "OP"@[0] == 'O' && "OP"@[1] == 'P');
    assert("ASSIGN"@.len() == 6 && "ASSIGN"@[0] == 'A' && "ASSIGN"@[1] == 'S' && "ASSIGN"@[2] == 'S');
    assert("DOT"@.len() == 3 && "DOT"@[0] == 'D' && "DOT"@[1] == 'O' && "DOT"@[2] == 'T');
    assert("COMMA"@.len() == 5 && "COMMA"@[0] == 'C' && "COMMA"@[1] == 'O' && "COMMA"@[2] == 'M');
    assert("COLON"@.len() == 5 && "COLON"@[0] == 'C' && "COLON"@[1] == 'O' && "COLON"@[2] == 'L');
    assert("TYPES"@.len() == 5 && "TYPES"@[0] == 'T' && "TYPES"@[1] == 'Y' && "TYPES"@[2] == 'P');
    assert("ARROW"@.len() == 5 && "ARROW"@[0] == 'A' && "ARROW"@[1] == 'R' && "ARROW"@[2] == 'R');
}

/// The operators of one level are none of another level.
pub proof fn lemma_operators(op: Seq<char>)
    ensures
        is_additive(op) ==> !is_multiplicative(op) && !is_comparison(op) && !is_step(op),
        is_multiplicative(op) ==> !is_comparison(op) && !is_step(op),
        is_comparison(op) ==> !is_step(op),
        is_step(op) ==> op != "?"@,
        is_binary(op) ==> op != "?"@,
{
    reveal_strlit("+");
    reveal_strlit("-");
    reveal_strlit("*");
    reveal_strlit("/");
    reveal_strlit("++");
    reveal_strlit("--");
    reveal_strlit("==");
    reveal_strlit("!=");
    reveal_strlit("<");
    reveal_strlit(">");
    reveal_strlit("<=");
    reveal_strlit(">=");
    reveal_strlit("&&");
    reveal_strlit("||");
    reveal_strlit("?");
    assert("=="@.len() == 2 && "!="@.len() == 2 && "<="@.len() == 2 && ">="@.len() == 2 && "&&"@.len()
        == 2 && "||"@.len() == 2 && "++"@.len() == 2 && "--"@.len() == 2);
    assert("+"@.len() == 1 && "-"@.len() == 1 && "*"@.len() == 1 && "/"@.len() == 1 && "<"@.len() == 1
        && ">"@.len() == 1 && "?"@.len() == 1);
    assert("+"@[0] == '+' && "-"@[0] == '-' && "*"@[0] == '*' && "/"@[0] == '/' && "<"@[0] == '<'
        && ">"@[0] == '>' && "?"@[0] == '?');
    assert("++"@[0] == '+' && "--"@[0] == '-' && "=="@[0] == '=' && "!="@[0] == '!' && "<="@[0]
        == '<' && ">="@[0] == '>' && "&&"@[0] == '&' && "||"@[0] == '|');
}

/// The digits of a natural number are digits, and denote the number.
pub proof fn lemma_digits_read_back(n: nat)
    ensures
        all_digits(digits_of(n)),
        digits_value(digits_of(n)) == n,
        digits_of(n)[0] != '-' && digits_of(n)[0] != '+',
    decreases n,
{
    if n < 10 {
        assert(digits_of(n).drop_last() =~= Seq::<char>::empty());
        assert(digits_value(Seq::<char>::empty()) == 0);
    } else {
        lemma_digits_read_back(n / 10);
        let front = digits_of(n / 10);
        let all = digits_of(n);
        assert(all.drop_last() =~= front);
        assert(all[0] == front[0]);
    }
}

/// A decimal text reads back as the integer it was written for.
pub proof fn lemma_decimal_reads_back(n: i64)
    ensures
        int_of_text(decimal(n as int)) == Some(n),
{
    if n < 0 {
        let size = (-n) as nat;
        lemma_digits_read_back(size);
        let s = decimal(n as int);
        assert(s[0] == '-');
        assert(s.subrange(1, s.len() as int) =~= digits_of(size));
    } else {
        lemma_digits_read_back(n as nat);
    }
}

/// Whether the token at `pos` starts no suffix.
pub open spec fn ends_factor(toks: Tokens, pos: int) -> bool {
    !at(toks, pos, "LBRACKET"@) && !at(toks, pos, "DOT"@)
}

/// Whether the token at `pos` goes on with no expression: it is no
/// operator, no sign of assignment and starts no suffix.
pub open spec fn ends_expr(toks: Tokens, pos: int) -> bool {
    ends_factor(toks, pos) && !at(toks, pos, "OP"@) && !at(toks, pos, "ASSIGN"@)
}

/// A factor that no operator follows is a whole expression.
pub proof fn lemma_closes(toks: Tokens, pos: int, end: int, node: Ast)
    requires
        0 <= pos < end <= toks.len(),
        g_factor(toks, pos) == Ok::<(Ast, int), ParseErr>((node, end)),
        ends_expr(toks, end),
    ensures
        g_comparison(toks, pos) == Ok::<(Ast, int), ParseErr>((node, end)),
        g_term(toks, pos) == Ok::<(Ast, int), ParseErr>((node, end)),
        g_expr(toks, pos) == Ok::<(Ast, int), ParseErr>((node, end)),
{
    assert(g_comparison_rest(toks, end, node) == Ok::<(Ast, int), ParseErr>((node, end)));
    assert(g_comparison(toks, pos) == Ok::<(Ast, int), ParseErr>((node, end)));
    assert(g_term_rest(toks, end, node) == Ok::<(Ast, int), ParseErr>((node, end)));
    assert(g_term(toks, pos) == Ok::<(Ast, int), ParseErr>((node, end)));
    assert(g_expr_rest(toks, end, node) == Ok::<(Ast, int), ParseErr>((node, end)));
}

/// A base that a closing parenthesis follows is a whole expression.
pub proof fn lemma_finish(toks: Tokens, pos: int, end: int, node: Ast, open: bool)
    requires
        0 <= pos < end <= toks.len(),
        g_base(toks, pos) == Ok::<((Ast, bool), int), ParseErr>(((node, open), end)),
        at(toks, end, "RPAREN"@),
    ensures
        g_expr(toks, pos) == Ok::<(Ast, int), ParseErr>((node, end)),
{
    lemma_kinds();
    if open {
        assert(g_suffix(toks, end, node) == Ok::<(Ast, int), ParseErr>((node, end)));
    }
    assert(g_factor(toks, pos) == Ok::<(Ast, int), ParseErr>((node, end)));
    lemma_closes(toks, pos, end, node);
}

/// An expression between parentheses is a base.
#[verifier::rlimit(100)]
pub proof fn lemma_paren_parts(toks: Tokens, pos: int, node: Ast, end: int)
    requires
        0 <= pos,
        pos + 1 <= end - 1,
        end <= toks.len(),
        toks[pos] == lp(),
        g_expr(toks, pos + 1) == Ok::<(Ast, int), ParseErr>((node, end - 1)),
        toks[end - 1] == rp(),
    ensures
        g_base(toks, pos) == Ok::<((Ast, bool), int), ParseErr>(((node, true), end)),
{
    lemma_kinds();
    assert(expect(toks, end - 1, "RPAREN"@) == Ok::<(Seq<char>, int), ParseErr>((")"@, end)));
}

/// A tree between parentheses parses as a base.
#[verifier::rlimit(100)]
pub proof fn lemma_wrapped_base(toks: Tokens, pos: int, node: Ast)
    requires
        well_formed(node),
        holds(toks, pos, wrap(node)),
    ensures
        g_base(toks, pos) == Ok::<((Ast, bool), int), ParseErr>(((node, true), pos + wrap(node).len())),
        wrap(node).len() == render(node).len() + 2,
        pos + wrap(node).len() <= toks.len(),
    decreases node, 5int,
{
    lemma_wrap(node);
    let r = render(node);
    let end = pos + wrap(node).len();
    lemma_cons(toks, pos, lp(), join(r, one(rp())));
    lemma_split(toks, pos + 1, r, one(rp()));
    lemma_one(toks, pos + 1 + r.len(), rp());
    assert(end == pos + 1 + r.len() + 1);
    assert(toks[end - 1] == rp());
    lemma_kinds();
    lemma_bare(toks, pos + 1, node);
    lemma_paren_parts(toks, pos, node, end);
}

/// A tree between parentheses parses as a factor, where no suffix follows.
pub proof fn lemma_wrapped_factor(toks: Tokens, pos: int, node: Ast)
    requires
        well_formed(node),
        holds(toks, pos, wrap(node)),
        ends_factor(toks, pos + wrap(node).len()),
    ensures
        g_factor(toks, pos) == Ok::<(Ast, int), ParseErr>((node, pos + wrap(node).len())),
        wrap(node).len() >= 2,
        pos + wrap(node).len() <= toks.len(),
    decreases node, 6int,
{
    lemma_wrap(node);
    lemma_kinds();
    lemma_wrapped_base(toks, pos, node);
    let end = pos + wrap(node).len();
    assert(g_suffix(toks, end, node) == Ok::<(Ast, int), ParseErr>((node, end)));
}

/// A tree between parentheses parses as an expression, where nothing
/// follows that goes on with it.
pub proof fn lemma_wrapped_expr(toks: Tokens, pos: int, node: Ast)
    requires
        well_formed(node),
        holds(toks, pos, wrap(node)),
        ends_expr(toks, pos + wrap(node).len()),
    ensures
        g_expr(toks, pos) == Ok::<(Ast, int), ParseErr>((node, pos + wrap(node).len())),
        wrap(node).len() >= 2,
        pos + wrap(node).len() <= toks.len(),
    decreases node, 7int,
{
    lemma_wrap(node);
    lemma_wrapped_factor(toks, pos, node);
    lemma_closes(toks, pos, pos + wrap(node).len(), node);
}

/// The rendering of a tree, where a closing parenthesis follows it, parses
/// as an expression.
pub proof fn lemma_bare(toks: Tokens, pos: int, node: Ast)
    requires
        well_formed(node),
        holds(toks, pos, render(node)),
        at(toks, pos + render(node).len(), "RPAREN"@),
    ensures
        g_expr(toks, pos) == Ok::<(Ast, int), ParseErr>((node, pos + render(node).len())),
    decreases node, 4int,
{
    lemma_wf(node);
    match node {
        Ast::Number(_) => lemma_bare_literal(toks, pos, node),
        Ast::Float(_) => lemma_bare_literal(toks, pos, node),
        Ast::String(_) => lemma_bare_literal(toks, pos, node),
        Ast::Regex(_) => lemma_bare_literal(toks, pos, node),
        Ast::Boolean(_) => lemma_bare_literal(toks, pos, node),
        Ast::Identifier(_) => lemma_bare_literal(toks, pos, node),
        Ast::BinaryOp { .. } => lemma_bare_binary(toks, pos, node),
        Ast::UnaryOpTT { .. } => lemma_bare_step(toks, pos, node),
        Ast::Assign { .. } => lemma_bare_assign(toks, pos, node),
        Ast::Index { .. } => lemma_bare_index(toks, pos, node),
        Ast::Array(_) => lemma_bare_array(toks, pos, node),
        Ast::MethodCall { .. } => lemma_bare_method(toks, pos, node),
        Ast::FunctionCall { .. } => lemma_bare_call(toks, pos, node),
        Ast::If { .. } => lemma_bare_if(toks, pos, node),
        Ast::Print { .. } => lemma_bare_unary(toks, pos, node),
        Ast::Delete(_) => lemma_bare_unary(toks, pos, node),
        Ast::Sleep { .. } => lemma_bare_unary(toks, pos, node),
        Ast::TypeFunc { .. } => lemma_bare_unary(toks, pos, node),
        Ast::Let { .. } => lemma_bare_let(toks, pos, node),
        Ast::Import { .. } => lemma_bare_plain(toks, pos, node),
        Ast::Input { .. } => lemma_bare_plain(toks, pos, node),
        Ast::Random { .. } => lemma_bare_random(toks, pos, node),
        Ast::Compile { .. } => lemma_bare_compile(toks, pos, node),
        Ast::CompileAll { .. } => lemma_bare_compile_all(toks, pos, node),
        Ast::While { .. } => lemma_bare_while(toks, pos, node),
        Ast::For { .. } => lemma_bare_for(toks, pos, node),
        Ast::ForIn { .. } => lemma_bare_for_in(toks, pos, node),
        Ast::Return(_) => lemma_bare_return(toks, pos, node),
        Ast::Function { .. } => lemma_bare_function(toks, pos, node),
        Ast::ToType { .. } => lemma_bare_to(toks, pos, node),
        _ => {},
    }
}

/// A literal or a name that a closing parenthesis follows is an expression.
#[verifier::rlimit(100)]
pub proof fn lemma_literal_parts(toks: Tokens, pos: int, node: Ast)
    requires
        0 <= pos < toks.len(),
        match node {
            Ast::Number(n) => toks[pos] == ("NUMBER"@, decimal(n as int)),
            Ast::Float(t) => toks[pos] == ("FLOAT"@, t) && is_decimal(t),
            Ast::String(t) => toks[pos] == ("STRING"@, t),
            Ast::Regex(t) => toks[pos] == ("REGEX"@, t),
            Ast::Boolean(b) => toks[pos] == (
                "BOOL"@,
                if b {
                    "true"@
                } else {
                    "false"@
                },
            ),
            Ast::Identifier(name) => toks[pos] == name_tok(name),
            _ => false,
        },
        at(toks, pos + 1, "RPAREN"@),
    ensures
        g_expr(toks, pos) == Ok::<(Ast, int), ParseErr>((node, pos + 1)),
{
    lemma_kinds();
    let end = pos + 1;
    match node {
        Ast::Number(n) => {
            lemma_decimal_reads_back(n);
        },
        Ast::Boolean(b) => {
            reveal_strlit("true");
            reveal_strlit("false");
        },
        Ast::Identifier(name) => {
            assert(g_named(toks, pos + 1, name) == Ok::<((Ast, bool), int), ParseErr>(((node, true), end)));
        },
        _ => {},
    }
    assert(g_base(toks, pos) == Ok::<((Ast, bool), int), ParseErr>(((node, true), end)));
    lemma_finish(toks, pos, end, node, true);
}

/// A literal or a name.
#[verifier::rlimit(100)]
pub proof fn lemma_bare_literal(toks: Tokens, pos: int, node: Ast)
    requires
        node is Number || node is Float || node is String || node is Regex || node is Boolean
            || node is Identifier,
        well_formed(node),
        holds(toks, pos, render(node)),
        at(toks, pos + render(node).len(), "RPAREN"@),
    ensures
        g_expr(toks, pos) == Ok::<(Ast, int), ParseErr>((node, pos + render(node).len())),
    decreases node, 0int,
{
    lemma_render(node);
    lemma_wf(node);
    match node {
        Ast::Number(n) => {
            lemma_one(toks, pos, ("NUMBER"@, decimal(n as int)));
        },
        Ast::Float(t) => {
            lemma_one(toks, pos, ("FLOAT"@, t));
        },
        Ast::String(t) => {
            lemma_one(toks, pos, ("STRING"@, t));
        },
        Ast::Regex(t) => {
            lemma_one(toks, pos, ("REGEX"@, t));
        },
        Ast::Boolean(b) => {
            lemma_one(
                toks,
                pos,
                (
                    "BOOL"@,
                    if b {
                        "true"@
                    } else {
                        "false"@
                    },
                ),
            );
        },
        Ast::Identifier(name) => {
            lemma_one(toks, pos, name_tok(name));
        },
        _ => {},
    }
    lemma_literal_parts(toks, pos, node);
}

/// An operation on two operands parses from its parts.
#[verifier::rlimit(100)]
pub proof fn lemma_binary_parts(
    toks: Tokens,
    pos: int,
    op: Seq<char>,
    left: Ast,
    right: Ast,
    mid: int,
    end: int,
)
    requires
        0 <= pos < mid,
        mid + 1 < end <= toks.len(),
        is_binary(op),
        g_factor(toks, pos) == Ok::<(Ast, int), ParseErr>((left, mid)),
        toks[mid] == op_tok(op),
        g_factor(toks, mid + 1) == Ok::<(Ast, int), ParseErr>((right, end)),
        at(toks, end, "RPAREN"@),
    ensures
        g_expr(toks, pos) == Ok::<(Ast, int), ParseErr>(
            (Ast::BinaryOp { op, left: Box::new(left), right: Box::new(right) }, end),
        ),
{
    lemma_kinds();
    lemma_operators(op);
    let node = Ast::BinaryOp { op, left: Box::new(left), right: Box::new(right) };
    if is_comparison(op) {
        assert(g_comparison_rest(toks, end, node) == Ok::<(Ast, int), ParseErr>((node, end)));
        assert(g_comparison_rest(toks, mid, left) == Ok::<(Ast, int), ParseErr>((node, end)));
        assert(g_comparison(toks, pos) == Ok::<(Ast, int), ParseErr>((node, end)));
        assert(g_term_rest(toks, end, node) == Ok::<(Ast, int), ParseErr>((node, end)));
        assert(g_term(toks, pos) == Ok::<(Ast, int), ParseErr>((node, end)));
        assert(g_expr_rest(toks, end, node) == Ok::<(Ast, int), ParseErr>((node, end)));
    } else if is_multiplicative(op) {
        assert(g_comparison_rest(toks, mid, left) == Ok::<(Ast, int), ParseErr>((left, mid)));
        assert(g_comparison(toks, pos) == Ok::<(Ast, int), ParseErr>((left, mid)));
        assert(g_comparison_rest(toks, end, right) == Ok::<(Ast, int), ParseErr>((right, end)));
        assert(g_comparison(toks, mid + 1) == Ok::<(Ast, int), ParseErr>((right, end)));
        assert(g_term_rest(toks, end, node) == Ok::<(Ast, int), ParseErr>((node, end)));
        assert(g_term_rest(toks, mid, left) == Ok::<(Ast, int), ParseErr>((node, end)));
        assert(g_term(toks, pos) == Ok::<(Ast, int), ParseErr>((node, end)));
        assert(g_expr_rest(toks, end, node) == Ok::<(Ast, int), ParseErr>((node, end)));
    } else {
        assert(g_comparison_rest(toks, mid, left) == Ok::<(Ast, int), ParseErr>((left, mid)));
        assert(g_comparison(toks, pos) == Ok::<(Ast, int), ParseErr>((left, mid)));
        assert(g_term_rest(toks, mid, left) == Ok::<(Ast, int), ParseErr>((left, mid)));
        assert(g_term(toks, pos) == Ok::<(Ast, int), ParseErr>((left, mid)));
        assert(g_comparison_rest(toks, end, right) == Ok::<(Ast, int), ParseErr>((right, end)));
        assert(g_comparison(toks, mid + 1) == Ok::<(Ast, int), ParseErr>((right, end)));
        assert(g_term_rest(toks, end, right) == Ok::<(Ast, int), ParseErr>((right, end)));
        assert(g_term(toks, mid + 1) == Ok::<(Ast, int), ParseErr>((right, end)));
        assert(g_expr_rest(toks, end, node) == Ok::<(Ast, int), ParseErr>((node, end)));
        assert(g_expr_rest(toks, mid, left) == Ok::<(Ast, int), ParseErr>((node, end)));
    }
}

/// An operation on two operands.
#[verifier::rlimit(100)]
pub proof fn lemma_bare_binary(toks: Tokens, pos: int, node: Ast)
    requires
        node is BinaryOp,
        well_formed(node),
        holds(toks, pos, render(node)),
        at(toks, pos + render(node).len(), "RPAREN"@),
    ensures
        g_expr(toks, pos) == Ok::<(Ast, int), ParseErr>((node, pos + render(node).len())),
    decreases node, 0int,
{
    lemma_render(node);
    lemma_wf(node);
    let op = node->BinaryOp_op;
    let left = *node->BinaryOp_left;
    let right = *node->BinaryOp_right;
    let end = pos + render(node).len();
    lemma_split(toks, pos, wrap(left), cons(op_tok(op), wrap(right)));
    let mid = pos + wrap(left).len();
    lemma_cons(toks, mid, op_tok(op), wrap(right));
    assert(end == mid + 1 + wrap(right).len());
    lemma_kinds();
    lemma_wrapped_factor(toks, pos, left);
    lemma_wrapped_factor(toks, mid + 1, right);
    lemma_binary_parts(toks, pos, op, left, right, mid, end);
}

/// A factor that an operator of the lowest level follows is a term.
pub proof fn lemma_operand(toks: Tokens, pos: int, node: Ast)
    requires
        well_formed(node),
        holds(toks, pos, wrap(node)),
        at(toks, pos + wrap(node).len(), "ASSIGN"@) || (at(toks, pos + wrap(node).len(), "OP"@)
            && !is_comparison(toks[pos + wrap(node).len()].1) && !is_multiplicative(
            toks[pos + wrap(node).len()].1,
        )),
    ensures
        g_term(toks, pos) == Ok::<(Ast, int), ParseErr>((node, pos + wrap(node).len())),
        wrap(node).len() >= 2,
    decreases node, 7int,
{
    lemma_kinds();
    let mid = pos + wrap(node).len();
    lemma_wrapped_factor(toks, pos, node);
    assert(g_comparison_rest(toks, mid, node) == Ok::<(Ast, int), ParseErr>((node, mid)));
    assert(g_comparison(toks, pos) == Ok::<(Ast, int), ParseErr>((node, mid)));
    assert(g_term_rest(toks, mid, node) == Ok::<(Ast, int), ParseErr>((node, mid)));
}

/// A postfix step parses from its parts.
#[verifier::rlimit(100)]
pub proof fn lemma_step_parts(toks: Tokens, pos: int, op: Seq<char>, var: Ast, mid: int)
    requires
        0 <= pos < mid < toks.len(),
        is_step(op),
        g_term(toks, pos) == Ok::<(Ast, int), ParseErr>((var, mid)),
        toks[mid] == op_tok(op),
        at(toks, mid + 1, "RPAREN"@),
    ensures
        g_expr(toks, pos) == Ok::<(Ast, int), ParseErr>((Ast::UnaryOpTT { op, var: Box::new(var) }, mid + 1)),
{
    lemma_kinds();
    lemma_operators(op);
    let node = Ast::UnaryOpTT { op, var: Box::new(var) };
    assert(g_expr_rest(toks, mid + 1, node) == Ok::<(Ast, int), ParseErr>((node, mid + 1)));
    assert(g_expr_rest(toks, mid, var) == Ok::<(Ast, int), ParseErr>((node, mid + 1)));
}

/// A postfix step.
#[verifier::rlimit(100)]
pub proof fn lemma_bare_step(toks: Tokens, pos: int, node: Ast)
    requires
        node is UnaryOpTT,
        well_formed(node),
        holds(toks, pos, render(node)),
        at(toks, pos + render(node).len(), "RPAREN"@),
    ensures
        g_expr(toks, pos) == Ok::<(Ast, int), ParseErr>((node, pos + render(node).len())),
    decreases node, 0int,
{
    lemma_render(node);
    lemma_wf(node);
    let op = node->UnaryOpTT_op;
    let var = *node->UnaryOpTT_var;
    lemma_operators(op);
    lemma_split(toks, pos, wrap(var), one(op_tok(op)));
    let mid = pos + wrap(var).len();
    lemma_one(toks, mid, op_tok(op));
    assert(pos + render(node).len() == mid + 1);
    lemma_kinds();
    lemma_operand(toks, pos, var);
    lemma_step_parts(toks, pos, op, var, mid);
}

/// An assignment parses from its parts.
#[verifier::rlimit(100)]
pub proof fn lemma_assign_parts(toks: Tokens, pos: int, left: Ast, right: Ast, mid: int, end: int)
    requires
        0 <= pos < mid,
        mid + 1 < end <= toks.len(),
        g_term(toks, pos) == Ok::<(Ast, int), ParseErr>((left, mid)),
        toks[mid] == gets(),
        g_expr(toks, mid + 1) == Ok::<(Ast, int), ParseErr>((right, end)),
        at(toks, end, "RPAREN"@),
    ensures
        g_expr(toks, pos) == Ok::<(Ast, int), ParseErr>(
            (Ast::Assign { left: Box::new(left), right: Box::new(right) }, end),
        ),
{
    lemma_kinds();
    let node = Ast::Assign { left: Box::new(left), right: Box::new(right) };
    assert(g_expr_rest(toks, end, node) == Ok::<(Ast, int), ParseErr>((node, end)));
    assert(g_expr_rest(toks, mid, left) == Ok::<(Ast, int), ParseErr>((node, end)));
}

/// An assignment.
#[verifier::rlimit(100)]
pub proof fn lemma_bare_assign(toks: Tokens, pos: int, node: Ast)
    requires
        node is Assign,
        well_formed(node),
        holds(toks, pos, render(node)),
        at(toks, pos + render(node).len(), "RPAREN"@),
    ensures
        g_expr(toks, pos) == Ok::<(Ast, int), ParseErr>((node, pos + render(node).len())),
    decreases node, 0int,
{
    lemma_render(node);
    lemma_wf(node);
    let left = *node->Assign_left;
    let right = *node->Assign_right;
    let end = pos + render(node).len();
    lemma_split(toks, pos, wrap(left), cons(gets(), wrap(right)));
    let mid = pos + wrap(left).len();
    lemma_cons(toks, mid, gets(), wrap(right));
    assert(end == mid + 1 + wrap(right).len());
    lemma_kinds();
    lemma_operand(toks, pos, left);
    lemma_wrapped_expr(toks, mid + 1, right);
    lemma_assign_parts(toks, pos, left, right, mid, end);
}

/// An element of an array parses from its parts.
#[verifier::rlimit(100)]
pub proof fn lemma_index_parts(toks: Tokens, pos: int, array: Ast, index: Ast, mid: int, end: int)
    requires
        0 <= pos < mid,
        mid + 1 < end - 1,
        end <= toks.len(),
        g_base(toks, pos) == Ok::<((Ast, bool), int), ParseErr>(((array, true), mid)),
        toks[mid] == lbracket(),
        g_expr(toks, mid + 1) == Ok::<(Ast, int), ParseErr>((index, end - 1)),
        toks[end - 1] == rbracket(),
        at(toks, end, "RPAREN"@),
    ensures
        g_expr(toks, pos) == Ok::<(Ast, int), ParseErr>(
            (Ast::Index { array: Box::new(array), index: Box::new(index) }, end),
        ),
{
    lemma_kinds();
    let node = Ast::Index { array: Box::new(array), index: Box::new(index) };
    assert(expect(toks, end - 1, "RBRACKET"@) == Ok::<(Seq<char>, int), ParseErr>(("]"@, end)));
    assert(g_suffix(toks, end, node) == Ok::<(Ast, int), ParseErr>((node, end)));
    assert(g_suffix(toks, mid, array) == Ok::<(Ast, int), ParseErr>((node, end)));
    assert(g_factor(toks, pos) == Ok::<(Ast, int), ParseErr>((node, end)));
    lemma_closes(toks, pos, end, node);
}

/// An element of an array.
#[verifier::rlimit(100)]
pub proof fn lemma_bare_index(toks: Tokens, pos: int, node: Ast)
    requires
        node is Index,
        well_formed(node),
        holds(toks, pos, render(node)),
        at(toks, pos + render(node).len(), "RPAREN"@),
    ensures
        g_expr(toks, pos) == Ok::<(Ast, int), ParseErr>((node, pos + render(node).len())),
    decreases node, 0int,
{
    lemma_render(node);
    lemma_wf(node);
    let array = *node->Index_array;
    let index = *node->Index_index;
    let end = pos + render(node).len();
    lemma_split(toks, pos, wrap(array), cons(lbracket(), join(wrap(index), one(rbracket()))));
    let mid = pos + wrap(array).len();
    lemma_cons(toks, mid, lbracket(), join(wrap(index), one(rbracket())));
    lemma_split(toks, mid + 1, wrap(index), one(rbracket()));
    lemma_one(toks, mid + 1 + wrap(index).len(), rbracket());
    assert(end == mid + 1 + wrap(index).len() + 1);
    lemma_kinds();
    lemma_wrapped_base(toks, pos, array);
    lemma_wrapped_expr(toks, mid + 1, index);
    lemma_index_parts(toks, pos, array, index, mid, end);
}

/// The tokens of one operand, given between its own parentheses, between
/// the parentheses of a built-in form.
pub open spec fn one_arg(wrapped: Tokens) -> Tokens {
    cons(lp(), join(wrapped, one(rp())))
}

/// The tokens of two operands, each given between its own parentheses,
/// between the parentheses of a built-in form.
pub open spec fn two_args(first: Tokens, second: Tokens) -> Tokens {
    cons(lp(), join(first, cons(comma(), join(second, one(rp())))))
}

/// The token that marks a constant, if the declaration is of one.
pub open spec fn const_part(constant: bool) -> Tokens {
    if constant {
        one(op_tok("&"@))
    } else {
        Seq::empty()
    }
}

/// The tokens of a parameter.
pub open spec fn param_toks(p: ParamView) -> Tokens {
    cons(
        name_tok(p.name),
        match p.param_type {
            Some(t) => cons(colon(), one(type_tok(t))),
            None => Seq::empty(),
        },
    )
}

/// The tokens of the parameters from `from` on, each after a comma.
#[verifier::opaque]
pub open spec fn params_more(ps: Seq<ParamView>, from: int) -> Tokens
    decreases ps.len() - from,
{
    if from < 0 || from >= ps.len() {
        Seq::empty()
    } else {
        cons(comma(), join(param_toks(ps[from]), params_more(ps, from + 1)))
    }
}

/// The tokens of a list of parameters.
pub open spec fn params_toks(ps: Seq<ParamView>) -> Tokens {
    if ps.len() == 0 {
        Seq::empty()
    } else {
        join(param_toks(ps[0]), params_more(ps, 1))
    }
}

/// The keywords are spelled differently.
pub proof fn lemma_keywords()
    ensures
        mark("print"@) == 91255401,
        mark("let"@) == 57435508,
        mark("import"@) == 107572592,
        mark("if"@) == 40461824,
        mark("else"@) == 73755763,
        mark("while"@) == 91711593,
        mark("for"@) == 57044850,
        mark("in"@) == 40463872,
        mark("random"@) == 108159342,
        mark("func"@) == 73823598,
        mark("return"@) == 108160372,
        mark("del"@) == 56911212,
        mark("input"@) == 90795632,
        mark("to"@) == 41185024,
        mark("type"@) == 74742128,
        mark("sleep"@) == 91450469,
        mark("compile"@) == 123957101,
        mark("compile_all"@) == 191065965,
{
    reveal_strlit("print");
    reveal_strlit("let");
    reveal_strlit("import");
    reveal_strlit("if");
    reveal_strlit("else");
    reveal_strlit("while");
    reveal_strlit("for");
    reveal_strlit("in");
    reveal_strlit("random");
    reveal_strlit("func");
    reveal_strlit("return");
    reveal_strlit("del");
    reveal_strlit("input");
    reveal_strlit("to");
    reveal_strlit("type");
    reveal_strlit("sleep");
    reveal_strlit("compile");
    reveal_strlit("compile_all");
    assert("print"@.len() == 5 && "print"@[0] == 'p' && "print"@[1] == 'r' && "print"@[2] == 'i');
    assert("let"@.len() == 3 && "let"@[0] == 'l' && "let"@[1] == 'e' && "let"@[2] == 't');
    assert("import"@.len() == 6 && "import"@[0] == 'i' && "import"@[1] == 'm' && "import"@[2] == 'p');
    assert("if"@.len() == 2 && "if"@[0] == 'i' && "if"@[1] == 'f');
    assert("else"@.len() == 4 && "else"@[0] == 'e' && "else"@[1] == 'l' && "else"@[2] == 's');
    assert("while"@.len() == 5 && "while"@[0] == 'w' && "while"@[1] == 'h' && "while"@[2] == 'i');
    assert("for"@.len() == 3 && "for"@[0] == 'f' && "for"@[1] == 'o' && "for"@[2] == 'r');
    assert("in"@.len() == 2 && "in"@[0] == 'i' && "in"@[1] == 'n');
    assert("random"@.len() == 6 && "random"@[0] == 'r' && "random"@[1] == 'a' && "random"@[2] == 'n');
    assert("func"@.len() == 4 && "func"@[0] == 'f' && "func"@[1] == 'u' && "func"@[2] == 'n');
    assert("return"@.len() == 6 && "return"@[0] == 'r' && "return"@[1] == 'e' && "return"@[2] == 't');
    assert("del"@.len() == 3 && "del"@[0] == 'd' && "del"@[1] == 'e' && "del"@[2] == 'l');
    assert("input"@.len() == 5 && "input"@[0] == 'i' && "input"@[1] == 'n' && "input"@[2] == 'p');
    assert("to"@.len() == 2 && "to"@[0] == 't' && "to"@[1] == 'o');
    assert("type"@.len() == 4 && "type"@[0] == 't' && "type"@[1] == 'y' && "type"@[2] == 'p');
    assert("sleep"@.len() == 5 && "sleep"@[0] == 's' && "sleep"@[1] == 'l' && "sleep"@[2] == 'e');
    assert("compile"@.len() == 7 && "compile"@[0] == 'c' && "compile"@[1] == 'o' && "compile"@[2] == 'm');
    assert("compile_all"@.len() == 11 && "compile_all"@[0] == 'c' && "compile_all"@[1] == 'o' && "compile_all"@[2] == 'm');
}

/// The name of a type reads back as the type.
pub proof fn lemma_type(toks: Tokens, pos: int, t: Type)
    requires
        0 <= pos < toks.len(),
        toks[pos] == type_tok(t),
    ensures
        g_type(toks, pos) == Ok::<(Type, int), ParseErr>((t, pos + 1)),
{
    reveal_strlit("int");
    reveal_strlit("float");
    reveal_strlit("bool");
    reveal_strlit("string");
    reveal_strlit("array");
    reveal_strlit("void");
    assert("int"@.len() == 3 && "float"@.len() == 5 && "bool"@.len() == 4 && "string"@.len() == 6
        && "array"@.len() == 5 && "void"@.len() == 4);
    assert("float"@[0] == 'f' && "array"@[0] == 'a' && "bool"@[0] == 'b' && "void"@[0] == 'v');
    assert(type_of_word(type_text(t)) == Some(t));
    assert(expect(toks, pos, "TYPES"@) == Ok::<(Seq<char>, int), ParseErr>((type_text(t), pos + 1)));
}

/// The first token of statements that stand at `pos`.
pub proof fn lemma_stmts_first(toks: Tokens, pos: int, nodes: Seq<Ast>, i: int)
    requires
        0 <= i < nodes.len(),
        holds(toks, pos, stmts(nodes, i)),
    ensures
        0 <= pos < toks.len(),
        toks[pos] == lp(),
{
    lemma_stmts(nodes, i);
    lemma_split(toks, pos, wrap(nodes[i]), stmts(nodes, i + 1));
    lemma_wrap_first(toks, pos, nodes[i]);
}

/// The statements of a block parse as they were written.
pub proof fn lemma_block_items(toks: Tokens, pos: int, nodes: Seq<Ast>, i: int, acc: Seq<Ast>)
    requires
        0 <= i <= nodes.len(),
        all_well_formed(nodes, i),
        holds(toks, pos, stmts(nodes, i)),
        at(toks, pos + stmts(nodes, i).len(), "RBRACE"@),
    ensures
        g_block_items(toks, pos, acc) == Ok::<(Seq<Ast>, int), ParseErr>((acc + nodes.skip(i), pos + stmts(nodes, i).len())),
    decreases nodes, nodes.len() - i,
{
    lemma_stmts(nodes, i + 1);
    lemma_stmts(nodes, i);
    lemma_all_wf(nodes, i);
    lemma_kinds();
    if i == nodes.len() {
        assert(acc + nodes.skip(i) =~= acc);
    } else {
        lemma_split(toks, pos, wrap(nodes[i]), stmts(nodes, i + 1));
        lemma_wrap_first(toks, pos, nodes[i]);
        let next = pos + wrap(nodes[i]).len();
        if i + 1 < nodes.len() {
            lemma_stmts_first(toks, next, nodes, i + 1);
        }
        lemma_wrapped_expr(toks, pos, nodes[i]);
        lemma_block_items(toks, next, nodes, i + 1, acc.push(nodes[i]));
        assert(acc.push(nodes[i]) + nodes.skip(i + 1) =~= acc + nodes.skip(i));
    }
}

/// A block parses as it was written.
#[verifier::rlimit(100)]
pub proof fn lemma_block(toks: Tokens, pos: int, nodes: Seq<Ast>)
    requires
        all_well_formed(nodes, 0),
        holds(toks, pos, block(nodes)),
    ensures
        g_block(toks, pos) == Ok::<(Seq<Ast>, int), ParseErr>((nodes, pos + block(nodes).len())),
        block(nodes).len() >= 2,
        pos + block(nodes).len() <= toks.len(),
    decreases nodes, nodes.len() + 1,
{
    lemma_kinds();
    let inner = stmts(nodes, 0);
    lemma_cons(toks, pos, lbrace(), join(inner, one(rbrace())));
    lemma_split(toks, pos + 1, inner, one(rbrace()));
    lemma_one(toks, pos + 1 + inner.len(), rbrace());
    lemma_block_items(toks, pos + 1, nodes, 0, Seq::empty());
    assert(Seq::<Ast>::empty() + nodes.skip(0) =~= nodes);
    let end = pos + block(nodes).len();
    assert(expect(toks, end - 1, "RBRACE"@) == Ok::<(Seq<char>, int), ParseErr>(("}"@, end)));
}

/// The statements of a program parse as they were written.
pub proof fn lemma_program(toks: Tokens, pos: int, nodes: Seq<Ast>, i: int, acc: Seq<Ast>)
    requires
        0 <= i <= nodes.len(),
        all_well_formed(nodes, i),
        holds(toks, pos, stmts(nodes, i)),
        pos + stmts(nodes, i).len() == toks.len(),
    ensures
        g_program(toks, pos, acc) == Ok::<Seq<Ast>, ParseErr>(acc + nodes.skip(i)),
    decreases nodes, nodes.len() - i,
{
    lemma_stmts(nodes, i + 1);
    lemma_stmts(nodes, i);
    lemma_all_wf(nodes, i);
    lemma_kinds();
    if i == nodes.len() {
        assert(acc + nodes.skip(i) =~= acc);
    } else {
        lemma_split(toks, pos, wrap(nodes[i]), stmts(nodes, i + 1));
        lemma_wrap_first(toks, pos, nodes[i]);
        let next = pos + wrap(nodes[i]).len();
        if i + 1 < nodes.len() {
            lemma_stmts_first(toks, next, nodes, i + 1);
        }
        lemma_wrapped_expr(toks, pos, nodes[i]);
        lemma_program(toks, next, nodes, i + 1, acc.push(nodes[i]));
        assert(acc.push(nodes[i]) + nodes.skip(i + 1) =~= acc + nodes.skip(i));
    }
}

/// One operand between parentheses parses as it was written.
#[verifier::rlimit(100)]
pub proof fn lemma_one_arg(toks: Tokens, pos: int, x: Ast)
    requires
        well_formed(x),
        holds(toks, pos, one_arg(wrap(x))),
    ensures
        g_one_arg(toks, pos) == Ok::<(Ast, int), ParseErr>((x, pos + one_arg(wrap(x)).len())),
        one_arg(wrap(x)).len() >= 4,
        pos + one_arg(wrap(x)).len() <= toks.len(),
    decreases x, 8int,
{
    lemma_kinds();
    lemma_cons(toks, pos, lp(), join(wrap(x), one(rp())));
    lemma_split(toks, pos + 1, wrap(x), one(rp()));
    lemma_one(toks, pos + 1 + wrap(x).len(), rp());
    lemma_wrapped_expr(toks, pos + 1, x);
    let end = pos + one_arg(wrap(x)).len();
    assert(expect(toks, pos, "LPAREN"@) == Ok::<(Seq<char>, int), ParseErr>(("("@, pos + 1)));
    assert(expect(toks, end - 1, "RPAREN"@) == Ok::<(Seq<char>, int), ParseErr>((")"@, end)));
}

/// Two operands between parentheses parse from their parts.
#[verifier::rlimit(100)]
pub proof fn lemma_two_args(toks: Tokens, pos: int, a: Ast, b: Ast, mid: int, end: int)
    requires
        0 <= pos,
        pos + 1 < mid,
        mid + 1 < end - 1,
        end <= toks.len(),
        toks[pos] == lp(),
        g_expr(toks, pos + 1) == Ok::<(Ast, int), ParseErr>((a, mid)),
        toks[mid] == comma(),
        g_expr(toks, mid + 1) == Ok::<(Ast, int), ParseErr>((b, end - 1)),
        toks[end - 1] == rp(),
    ensures
        g_two_args(toks, pos) == Ok::<((Ast, Ast), int), ParseErr>(((a, b), end)),
{
    assert(expect(toks, pos, "LPAREN"@) == Ok::<(Seq<char>, int), ParseErr>(("("@, pos + 1)));
    assert(expect(toks, mid, "COMMA"@) == Ok::<(Seq<char>, int), ParseErr>((","@, mid + 1)));
    assert(expect(toks, end - 1, "RPAREN"@) == Ok::<(Seq<char>, int), ParseErr>((")"@, end)));
}


/// The items of an array after the first parse as they were written.
pub proof fn lemma_array_more(toks: Tokens, pos: int, nodes: Seq<Ast>, i: int, acc: Seq<Ast>)
    requires
        0 <= i <= nodes.len(),
        all_well_formed(nodes, i),
        holds(toks, pos, more(nodes, i)),
        at(toks, pos + more(nodes, i).len(), "RBRACKET"@),
    ensures
        g_array_more(toks, pos, acc) == Ok::<(Seq<Ast>, int), ParseErr>((acc + nodes.skip(i), pos + more(nodes, i).len())),
    decreases nodes, nodes.len() - i,
{
    lemma_more(nodes, i);
    lemma_more(nodes, i + 1);
    lemma_all_wf(nodes, i);
    lemma_kinds();
    if i == nodes.len() {
        assert(acc + nodes.skip(i) =~= acc);
    } else {
        lemma_cons(toks, pos, comma(), join(wrap(nodes[i]), more(nodes, i + 1)));
        lemma_split(toks, pos + 1, wrap(nodes[i]), more(nodes, i + 1));
        let next = pos + 1 + wrap(nodes[i]).len();
        if i + 1 < nodes.len() {
            lemma_cons(toks, next, comma(), join(wrap(nodes[i + 1]), more(nodes, i + 2)));
        }
        lemma_wrapped_expr(toks, pos + 1, nodes[i]);
        assert(expect(toks, pos, "COMMA"@) == Ok::<(Seq<char>, int), ParseErr>((","@, pos + 1)));
        lemma_array_more(toks, next, nodes, i + 1, acc.push(nodes[i]));
        assert(acc.push(nodes[i]) + nodes.skip(i + 1) =~= acc + nodes.skip(i));
    }
}

/// The arguments of a method call after the first parse as they were
/// written.
pub proof fn lemma_comma_items(toks: Tokens, pos: int, nodes: Seq<Ast>, i: int, acc: Seq<Ast>)
    requires
        0 <= i <= nodes.len(),
        all_well_formed(nodes, i),
        holds(toks, pos, more(nodes, i)),
        at(toks, pos + more(nodes, i).len(), "RPAREN"@),
    ensures
        g_comma_items(toks, pos, acc) == Ok::<(Seq<Ast>, int), ParseErr>((acc + nodes.skip(i), pos + more(nodes, i).len())),
    decreases nodes, nodes.len() - i,
{
    lemma_more(nodes, i);
    lemma_more(nodes, i + 1);
    lemma_all_wf(nodes, i);
    lemma_kinds();
    if i == nodes.len() {
        assert(acc + nodes.skip(i) =~= acc);
    } else {
        lemma_cons(toks, pos, comma(), join(wrap(nodes[i]), more(nodes, i + 1)));
        lemma_split(toks, pos + 1, wrap(nodes[i]), more(nodes, i + 1));
        let next = pos + 1 + wrap(nodes[i]).len();
        if i + 1 < nodes.len() {
            lemma_cons(toks, next, comma(), join(wrap(nodes[i + 1]), more(nodes, i + 2)));
        }
        lemma_wrapped_expr(toks, pos + 1, nodes[i]);
        lemma_comma_items(toks, next, nodes, i + 1, acc.push(nodes[i]));
        assert(acc.push(nodes[i]) + nodes.skip(i + 1) =~= acc + nodes.skip(i));
    }
}

/// The arguments of a call parse as they were written.
pub proof fn lemma_call_list(toks: Tokens, pos: int, nodes: Seq<Ast>, i: int, acc: Seq<Ast>)
    requires
        0 <= i <= nodes.len(),
        all_well_formed(nodes, i),
        holds(toks, pos, call_list(nodes, i)),
        at(toks, pos + call_list(nodes, i).len(), "RPAREN"@),
    ensures
        g_call_args(toks, pos, acc) == Ok::<(Seq<Ast>, int), ParseErr>(
            (acc + nodes.skip(i), pos + call_list(nodes, i).len()),
        ),
    decreases nodes, nodes.len() - i,
{
    lemma_call_list_shape(nodes, i);
    lemma_call_list_shape(nodes, i + 1);
    lemma_all_wf(nodes, i);
    lemma_kinds();
    if i == nodes.len() {
        assert(acc + nodes.skip(i) =~= acc);
    } else if i == nodes.len() - 1 {
        assert(call_list(nodes, i) == wrap(nodes[i]));
        lemma_wrap_first(toks, pos, nodes[i]);
        lemma_wrapped_expr(toks, pos, nodes[i]);
        let next = pos + wrap(nodes[i]).len();
        assert(call_list(nodes, i + 1) =~= Seq::<Tok>::empty());
        lemma_nothing(toks, next);
        lemma_call_list(toks, next, nodes, i + 1, acc.push(nodes[i]));
        assert(acc.push(nodes[i]) + nodes.skip(i + 1) =~= acc + nodes.skip(i));
    } else {
        lemma_split(toks, pos, wrap(nodes[i]), cons(comma(), call_list(nodes, i + 1)));
        lemma_wrap_first(toks, pos, nodes[i]);
        let next = pos + wrap(nodes[i]).len();
        lemma_cons(toks, next, comma(), call_list(nodes, i + 1));
        lemma_wrapped_expr(toks, pos, nodes[i]);
        lemma_call_list(toks, next + 1, nodes, i + 1, acc.push(nodes[i]));
        assert(acc.push(nodes[i]) + nodes.skip(i + 1) =~= acc + nodes.skip(i));
    }
}

/// A parameter parses as it was written.
pub proof fn lemma_param(toks: Tokens, pos: int, p: ParamView)
    requires
        holds(toks, pos, param_toks(p)),
        !at(toks, pos + param_toks(p).len(), "COLON"@),
    ensures
        g_param(toks, pos) == Ok::<(ParamView, int), ParseErr>((p, pos + param_toks(p).len())),
        param_toks(p).len() >= 1,
        pos + param_toks(p).len() <= toks.len(),
{
    lemma_kinds();
    match p.param_type {
        Some(t) => {
            lemma_cons(toks, pos, name_tok(p.name), cons(colon(), one(type_tok(t))));
            lemma_cons(toks, pos + 1, colon(), one(type_tok(t)));
            lemma_one(toks, pos + 2, type_tok(t));
            lemma_type(toks, pos + 2, t);
        },
        None => {
            lemma_cons(toks, pos, name_tok(p.name), Seq::empty());
        },
    }
    assert(expect(toks, pos, "ID"@) == Ok::<(Seq<char>, int), ParseErr>((p.name, pos + 1)));
}

/// The parameters after the first parse as they were written.
pub proof fn lemma_params_more(toks: Tokens, pos: int, ps: Seq<ParamView>, i: int, acc: Seq<ParamView>)
    requires
        0 <= i <= ps.len(),
        holds(toks, pos, params_more(ps, i)),
        at(toks, pos + params_more(ps, i).len(), "RPAREN"@),
    ensures
        g_params_more(toks, pos, acc) == Ok::<(Seq<ParamView>, int), ParseErr>(
            (acc + ps.skip(i), pos + params_more(ps, i).len()),
        ),
    decreases ps.len() - i,
{
    lemma_params_more_shape(ps, i);
    lemma_params_more_shape(ps, i + 1);
    lemma_kinds();
    if i == ps.len() {
        assert(acc + ps.skip(i) =~= acc);
    } else {
        lemma_cons(toks, pos, comma(), join(param_toks(ps[i]), params_more(ps, i + 1)));
        lemma_split(toks, pos + 1, param_toks(ps[i]), params_more(ps, i + 1));
        let next = pos + 1 + param_toks(ps[i]).len();
        if i + 1 < ps.len() {
            lemma_cons(toks, next, comma(), join(param_toks(ps[i + 1]), params_more(ps, i + 2)));
        }
        lemma_param(toks, pos + 1, ps[i]);
        assert(expect(toks, pos, "COMMA"@) == Ok::<(Seq<char>, int), ParseErr>((","@, pos + 1)));
        lemma_params_more(toks, next, ps, i + 1, acc.push(ps[i]));
        assert(acc.push(ps[i]) + ps.skip(i + 1) =~= acc + ps.skip(i));
    }
}

/// A list of parameters parses as it was written.
pub proof fn lemma_params(toks: Tokens, pos: int, ps: Seq<ParamView>)
    requires
        holds(toks, pos, params_toks(ps)),
        at(toks, pos + params_toks(ps).len(), "RPAREN"@),
    ensures
        g_params(toks, pos) == Ok::<(Seq<ParamView>, int), ParseErr>(
            (ps, pos + params_toks(ps).len()),
        ),
{
    lemma_params_more_shape(ps, 1);
    lemma_kinds();
    if ps.len() == 0 {
        assert(ps =~= Seq::<ParamView>::empty());
    } else {
        lemma_split(toks, pos, param_toks(ps[0]), params_more(ps, 1));
        let next = pos + param_toks(ps[0]).len();
        if 1 < ps.len() {
            lemma_cons(toks, next, comma(), join(param_toks(ps[1]), params_more(ps, 2)));
        }
        lemma_param(toks, pos, ps[0]);
        lemma_cons(
            toks,
            pos,
            name_tok(ps[0].name),
            match ps[0].param_type {
                Some(t) => cons(colon(), one(type_tok(t))),
                None => Seq::empty(),
            },
        );
        lemma_params_more(toks, next, ps, 1, seq![ps[0]]);
        assert(seq![ps[0]] + ps.skip(1) =~= ps);
    }
}

/// An array literal parses from its parts.
#[verifier::rlimit(100)]
pub proof fn lemma_array_parts(toks: Tokens, pos: int, items: Seq<Ast>, p1: int, end: int)
    requires
        0 <= pos,
        pos + 1 <= end - 1,
        end <= toks.len(),
        toks[pos] == lbracket(),
        toks[end - 1] == rbracket(),
        items.len() == 0 ==> end == pos + 2,
        items.len() > 0 ==> pos + 1 < p1 <= end - 1 && toks[pos + 1] == lp() && g_expr(
            toks,
            pos + 1,
        ) == Ok::<(Ast, int), ParseErr>((items[0], p1)) && g_array_more(toks, p1, seq![items[0]]) == Ok::<(Seq<Ast>, int), ParseErr>(
            (items, end - 1),
        ),
        at(toks, end, "RPAREN"@),
    ensures
        g_expr(toks, pos) == Ok::<(Ast, int), ParseErr>((Ast::Array(items), end)),
{
    lemma_kinds();
    let node = Ast::Array(items);
    assert(expect(toks, pos, "LBRACKET"@) == Ok::<(Seq<char>, int), ParseErr>(("["@, pos + 1)));
    assert(expect(toks, end - 1, "RBRACKET"@) == Ok::<(Seq<char>, int), ParseErr>(("]"@, end)));
    if items.len() == 0 {
        assert(items =~= Seq::<Ast>::empty());
    }
    assert(g_array(toks, pos) == Ok::<(Ast, int), ParseErr>((node, end)));
    assert(g_base(toks, pos) == Ok::<((Ast, bool), int), ParseErr>(((node, true), end)));
    lemma_finish(toks, pos, end, node, true);
}

/// An array literal.
#[verifier::rlimit(100)]
pub proof fn lemma_bare_array(toks: Tokens, pos: int, node: Ast)
    requires
        node is Array,
        well_formed(node),
        holds(toks, pos, render(node)),
        at(toks, pos + render(node).len(), "RPAREN"@),
    ensures
        g_expr(toks, pos) == Ok::<(Ast, int), ParseErr>((node, pos + render(node).len())),
    decreases node, 0int,
{
    lemma_render(node);
    lemma_wf(node);
    let items = node->Array_0;
    lemma_more(items, 1);
    lemma_more(items, 2);
    lemma_all_wf(items, 0);
    lemma_all_wf(items, 1);
    let end = pos + render(node).len();
    lemma_cons(toks, pos, lbracket(), join(commas(items), one(rbracket())));
    lemma_split(toks, pos + 1, commas(items), one(rbracket()));
    lemma_one(toks, pos + 1 + commas(items).len(), rbracket());
    assert(end == pos + 1 + commas(items).len() + 1);
    lemma_kinds();
    if items.len() == 0 {
        lemma_array_parts(toks, pos, items, pos + 1, end);
    } else {
        lemma_split(toks, pos + 1, wrap(items[0]), more(items, 1));
        lemma_wrap_first(toks, pos + 1, items[0]);
        let next = pos + 1 + wrap(items[0]).len();
        if 1 < items.len() {
            lemma_cons(toks, next, comma(), join(wrap(items[1]), more(items, 2)));
        }
        lemma_wrapped_expr(toks, pos + 1, items[0]);
        lemma_array_more(toks, next, items, 1, seq![items[0]]);
        assert(seq![items[0]] + items.skip(1) =~= items);
        assert(end - 1 == next + more(items, 1).len());
        lemma_array_parts(toks, pos, items, next, end);
    }
}

/// The arguments of a method call parse as they were written.
#[verifier::rlimit(100)]
pub proof fn lemma_method_args(toks: Tokens, pos: int, args: Seq<Ast>)
    requires
        all_well_formed(args, 0),
        holds(toks, pos, commas(args)),
        at(toks, pos + commas(args).len(), "RPAREN"@),
    ensures
        g_method_args(toks, pos) == Ok::<(Seq<Ast>, int), ParseErr>(
            (args, pos + commas(args).len()),
        ),
        pos + commas(args).len() <= toks.len(),
    decreases args, args.len() + 1,
{
    lemma_kinds();
    lemma_more(args, 1);
    lemma_more(args, 2);
    lemma_all_wf(args, 0);
    lemma_within(toks, pos, commas(args));
    if args.len() == 0 {
        assert(args =~= Seq::<Ast>::empty());
    } else {
        lemma_split(toks, pos, wrap(args[0]), more(args, 1));
        lemma_wrap_first(toks, pos, args[0]);
        let next = pos + wrap(args[0]).len();
        if 1 < args.len() {
            lemma_cons(toks, next, comma(), join(wrap(args[1]), more(args, 2)));
        }
        lemma_wrapped_expr(toks, pos, args[0]);
        lemma_comma_items(toks, next, args, 1, seq![args[0]]);
        assert(seq![args[0]] + args.skip(1) =~= args);
    }
}

/// A method call.
#[verifier::rlimit(100)]
pub proof fn lemma_bare_method(toks: Tokens, pos: int, node: Ast)
    requires
        node is MethodCall,
        well_formed(node),
        holds(toks, pos, render(node)),
        at(toks, pos + render(node).len(), "RPAREN"@),
    ensures
        g_expr(toks, pos) == Ok::<(Ast, int), ParseErr>((node, pos + render(node).len())),
    decreases node, 0int,
{
    lemma_render(node);
    lemma_wf(node);
    lemma_kinds();
    let object = *node->MethodCall_object;
    let method = node->MethodCall_method;
    let args = node->MethodCall_args;
    lemma_more(args, 1);
    lemma_more(args, 2);
    lemma_all_wf(args, 0);
    let end = pos + render(node).len();
    let tail = cons(dot(), cons(name_tok(method), cons(lp(), join(commas(args), one(rp())))));
    lemma_split(toks, pos, wrap(object), tail);
    let mid = pos + wrap(object).len();
    lemma_cons(toks, mid, dot(), cons(name_tok(method), cons(lp(), join(commas(args), one(rp())))));
    lemma_cons(toks, mid + 1, name_tok(method), cons(lp(), join(commas(args), one(rp()))));
    lemma_cons(toks, mid + 2, lp(), join(commas(args), one(rp())));
    lemma_split(toks, mid + 3, commas(args), one(rp()));
    lemma_one(toks, mid + 3 + commas(args).len(), rp());
    lemma_wrapped_base(toks, pos, object);
    lemma_method_args(toks, mid + 3, args);
    lemma_method_parts(toks, pos, object, method, args, mid, end);
}

/// A call of a function parses from its parts.
#[verifier::rlimit(100)]
pub proof fn lemma_call_parts(toks: Tokens, pos: int, name: Seq<char>, args: Seq<Ast>, end: int)
    requires
        0 <= pos,
        pos + 2 <= end - 1,
        end <= toks.len(),
        toks[pos] == name_tok(name),
        toks[pos + 1] == lp(),
        g_call_args(toks, pos + 2, Seq::empty()) == Ok::<(Seq<Ast>, int), ParseErr>((args, end - 1)),
        toks[end - 1] == rp(),
        at(toks, end, "RPAREN"@),
    ensures
        g_expr(toks, pos) == Ok::<(Ast, int), ParseErr>((Ast::FunctionCall { name, args }, end)),
{
    lemma_kinds();
    let node = Ast::FunctionCall { name, args };
    assert(expect(toks, end - 1, "RPAREN"@) == Ok::<(Seq<char>, int), ParseErr>((")"@, end)));
    assert(g_named(toks, pos + 1, name) == Ok::<((Ast, bool), int), ParseErr>(((node, false), end)));
    assert(g_base(toks, pos) == Ok::<((Ast, bool), int), ParseErr>(((node, false), end)));
    lemma_finish(toks, pos, end, node, false);
}

/// A call of a function.
#[verifier::rlimit(100)]
pub proof fn lemma_bare_call(toks: Tokens, pos: int, node: Ast)
    requires
        node is FunctionCall,
        well_formed(node),
        holds(toks, pos, render(node)),
        at(toks, pos + render(node).len(), "RPAREN"@),
    ensures
        g_expr(toks, pos) == Ok::<(Ast, int), ParseErr>((node, pos + render(node).len())),
    decreases node, 0int,
{
    lemma_render(node);
    lemma_wf(node);
    let name = node->FunctionCall_name;
    let args = node->FunctionCall_args;
    let end = pos + render(node).len();
    lemma_cons(toks, pos, name_tok(name), cons(lp(), join(call_list(args, 0), one(rp()))));
    lemma_cons(toks, pos + 1, lp(), join(call_list(args, 0), one(rp())));
    lemma_split(toks, pos + 2, call_list(args, 0), one(rp()));
    lemma_one(toks, pos + 2 + call_list(args, 0).len(), rp());
    assert(end == pos + 2 + call_list(args, 0).len() + 1);
    lemma_kinds();
    lemma_call_list(toks, pos + 2, args, 0, Seq::empty());
    assert(Seq::<Ast>::empty() + args.skip(0) =~= args);
    lemma_call_parts(toks, pos, name, args, end);
}

/// What a keyword leads is a base.
pub proof fn lemma_keyword_base(toks: Tokens, pos: int, word: Seq<char>, node: Ast, end: int)
    requires
        0 <= pos < toks.len(),
        toks[pos] == kw(word),
        g_keyword(toks, pos + 1, word) == Ok::<(Ast, int), ParseErr>((node, end)),
    ensures
        g_base(toks, pos) == Ok::<((Ast, bool), int), ParseErr>(((node, true), end)),
{
    lemma_kinds();
}

/// An `else` and its block parse as they were written.
#[verifier::rlimit(100)]
pub proof fn lemma_else(toks: Tokens, pos: int, e: Option<Seq<Ast>>)
    requires
        match e {
            Some(nodes) => all_well_formed(nodes, 0),
            None => true,
        },
        holds(toks, pos, else_part(e)),
        at(toks, pos + else_part(e).len(), "RPAREN"@),
    ensures
        g_optional_else(toks, pos) == Ok::<(Option<Seq<Ast>>, int), ParseErr>(
            (e, pos + else_part(e).len()),
        ),
        pos + else_part(e).len() <= toks.len(),
    decreases e, 0int,
{
    lemma_kinds();
    lemma_within(toks, pos, else_part(e));
    match e {
        Some(nodes) => {
            lemma_cons(toks, pos, kw("else"@), block(nodes));
            lemma_block(toks, pos + 1, nodes);
        },
        None => {},
    }
}

/// A conditional parses from its parts.
#[verifier::rlimit(100)]
pub proof fn lemma_if_parts(
    toks: Tokens,
    pos: int,
    c: Ast,
    body: Seq<Ast>,
    e: Option<Seq<Ast>>,
    p1: int,
    p2: int,
    end: int,
)
    requires
        0 <= pos < toks.len(),
        toks[pos] == kw("if"@),
        pos + 1 < p1 < p2 <= end <= toks.len(),
        g_one_arg(toks, pos + 1) == Ok::<(Ast, int), ParseErr>((c, p1)),
        g_block(toks, p1) == Ok::<(Seq<Ast>, int), ParseErr>((body, p2)),
        g_optional_else(toks, p2) == Ok::<(Option<Seq<Ast>>, int), ParseErr>((e, end)),
        at(toks, end, "RPAREN"@),
    ensures
        g_expr(toks, pos) == Ok::<(Ast, int), ParseErr>(
            (Ast::If { condition: Box::new(c), body, else_body: e }, end),
        ),
{
    lemma_kinds();
    lemma_keywords();
    let node = Ast::If { condition: Box::new(c), body, else_body: e };
    assert(g_question(toks, p1, c) == Ok::<(Ast, int), ParseErr>((node, end)));
    assert(g_keyword(toks, pos + 1, "if"@) == Ok::<(Ast, int), ParseErr>((node, end)));
    lemma_keyword_base(toks, pos, "if"@, node, end);
    lemma_finish(toks, pos, end, node, true);
}


/// A loop with three expressions parses from its header and its body.
#[verifier::rlimit(100)]
pub proof fn lemma_for_three(
    toks: Tokens,
    pos: int,
    init: Ast,
    condition: Ast,
    increment: Ast,
    body: Seq<Ast>,
    a: int,
    b: int,
    c: int,
    end: int,
)
    requires
        0 <= pos < a < b < c < end <= toks.len(),
        g_expr_comma(toks, pos) == Ok::<(Ast, int), ParseErr>((init, a + 1)),
        g_expr_comma(toks, a + 1) == Ok::<(Ast, int), ParseErr>((condition, b + 1)),
        g_one_closed(toks, b + 1) == Ok::<(Ast, int), ParseErr>((increment, c + 1)),
        g_block(toks, c + 1) == Ok::<(Seq<Ast>, int), ParseErr>((body, end)),
    ensures
        g_for_three(toks, pos) == Ok::<(Ast, int), ParseErr>(
            (
                Ast::For {
                    init: Box::new(init),
                    condition: Box::new(condition),
                    increment: Box::new(increment),
                    body,
                },
                end,
            ),
        ),
{
    let node = Ast::For {
        init: Box::new(init),
        condition: Box::new(condition),
        increment: Box::new(increment),
        body,
    };
    assert(g_for_tail(toks, b + 1, init, condition) == Ok::<(Ast, int), ParseErr>((node, end)));
}

/// A loop with three expressions parses from its parts.
#[verifier::rlimit(100)]
pub proof fn lemma_for_parts(toks: Tokens, pos: int, node: Ast, end: int)
    requires
        0 <= pos,
        pos + 2 < end <= toks.len(),
        toks[pos] == kw("for"@),
        toks[pos + 1] == lp(),
        toks[pos + 2] == lp(),
        g_for_three(toks, pos + 2) == Ok::<(Ast, int), ParseErr>((node, end)),
        at(toks, end, "RPAREN"@),
    ensures
        g_expr(toks, pos) == Ok::<(Ast, int), ParseErr>((node, end)),
{
    lemma_kinds();
    lemma_keywords();
    assert(expect(toks, pos + 1, "LPAREN"@) == Ok::<(Seq<char>, int), ParseErr>(("("@, pos + 2)));
    assert(g_for(toks, pos + 1) == Ok::<(Ast, int), ParseErr>((node, end)));
    assert(g_keyword(toks, pos + 1, "for"@) == Ok::<(Ast, int), ParseErr>((node, end)));
    lemma_keyword_base(toks, pos, "for"@, node, end);
    lemma_finish(toks, pos, end, node, true);
}

/// A loop over items parses from its parts.
#[verifier::rlimit(100)]
pub proof fn lemma_for_in_parts(
    toks: Tokens,
    pos: int,
    var: Seq<char>,
    iterable: Ast,
    body: Seq<Ast>,
    a: int,
    end: int,
)
    requires
        0 <= pos < toks.len(),
        toks[pos] == kw("for"@),
        pos + 4 < a < end <= toks.len(),
        toks[pos + 1] == lp(),
        toks[pos + 2] == name_tok(var),
        toks[pos + 3] == kw("in"@),
        g_expr(toks, pos + 4) == Ok::<(Ast, int), ParseErr>((iterable, a)),
        toks[a] == rp(),
        g_block(toks, a + 1) == Ok::<(Seq<Ast>, int), ParseErr>((body, end)),
        at(toks, end, "RPAREN"@),
    ensures
        g_expr(toks, pos) == Ok::<(Ast, int), ParseErr>(
            (Ast::ForIn { var, iterable: Box::new(iterable), body }, end),
        ),
{
    lemma_kinds();
    lemma_keywords();
    let node = Ast::ForIn { var, iterable: Box::new(iterable), body };
    assert(expect(toks, pos + 1, "LPAREN"@) == Ok::<(Seq<char>, int), ParseErr>(("("@, pos + 2)));
    assert(expect(toks, a, "RPAREN"@) == Ok::<(Seq<char>, int), ParseErr>((")"@, a + 1)));
    assert(g_for_in(toks, pos + 4, var) == Ok::<(Ast, int), ParseErr>((node, end)));
    assert(g_for(toks, pos + 1) == Ok::<(Ast, int), ParseErr>((node, end)));
    assert(g_keyword(toks, pos + 1, "for"@) == Ok::<(Ast, int), ParseErr>((node, end)));
    lemma_keyword_base(toks, pos, "for"@, node, end);
    lemma_finish(toks, pos, end, node, true);
}

/// A built-in form with two operands parses from its parts.
#[verifier::rlimit(100)]
pub proof fn lemma_pair_parts(toks: Tokens, pos: int, node: Ast, a: Ast, b: Ast, end: int)
    requires
        0 <= pos < toks.len(),
        pos + 1 < end <= toks.len(),
        (node == (Ast::Random { left: Box::new(a), right: Box::new(b) }) && toks[pos] == kw(
            "random"@,
        )) || (node == (Ast::Compile { expr: Box::new(a), regex: Box::new(b) }) && toks[pos]
            == kw("compile"@)) || (node == (Ast::CompileAll {
            expr: Box::new(a),
            regex: Box::new(b),
        }) && toks[pos] == kw("compile_all"@)),
        g_two_args(toks, pos + 1) == Ok::<((Ast, Ast), int), ParseErr>(((a, b), end)),
        at(toks, end, "RPAREN"@),
    ensures
        g_expr(toks, pos) == Ok::<(Ast, int), ParseErr>((node, end)),
{
    lemma_kinds();
    lemma_keywords();
    let word = toks[pos].1;
    assert(g_keyword_more(toks, pos + 1, word) == Ok::<(Ast, int), ParseErr>((node, end)));
    assert(g_keyword(toks, pos + 1, word) == Ok::<(Ast, int), ParseErr>((node, end)));
    lemma_keyword_base(toks, pos, word, node, end);
    lemma_finish(toks, pos, end, node, true);
}

/// A method call parses from its parts.
#[verifier::rlimit(100)]
pub proof fn lemma_method_parts(
    toks: Tokens,
    pos: int,
    object: Ast,
    method: Seq<char>,
    args: Seq<Ast>,
    mid: int,
    end: int,
)
    requires
        0 <= pos < mid,
        mid + 3 < end <= toks.len(),
        g_base(toks, pos) == Ok::<((Ast, bool), int), ParseErr>(((object, true), mid)),
        toks[mid] == dot(),
        toks[mid + 1] == name_tok(method),
        toks[mid + 2] == lp(),
        g_method_args(toks, mid + 3) == Ok::<(Seq<Ast>, int), ParseErr>((args, end - 1)),
        toks[end - 1] == rp(),
        at(toks, end, "RPAREN"@),
    ensures
        g_expr(toks, pos) == Ok::<(Ast, int), ParseErr>(
            (Ast::MethodCall { object: Box::new(object), method, args }, end),
        ),
{
    lemma_kinds();
    let node = Ast::MethodCall { object: Box::new(object), method, args };
    assert(expect(toks, mid + 1, "ID"@) == Ok::<(Seq<char>, int), ParseErr>((method, mid + 2)));
    assert(expect(toks, mid + 2, "LPAREN"@) == Ok::<(Seq<char>, int), ParseErr>(("("@, mid + 3)));
    assert(expect(toks, end - 1, "RPAREN"@) == Ok::<(Seq<char>, int), ParseErr>((")"@, end)));
    assert(g_suffix(toks, end, node) == Ok::<(Ast, int), ParseErr>((node, end)));
    assert(g_suffix(toks, mid, object) == Ok::<(Ast, int), ParseErr>((node, end)));
    assert(g_factor(toks, pos) == Ok::<(Ast, int), ParseErr>((node, end)));
    lemma_closes(toks, pos, end, node);
}

/// A conditional.
#[verifier::rlimit(100)]
pub proof fn lemma_bare_if(toks: Tokens, pos: int, node: Ast)
    requires
        node is If,
        well_formed(node),
        holds(toks, pos, render(node)),
        at(toks, pos + render(node).len(), "RPAREN"@),
    ensures
        g_expr(toks, pos) == Ok::<(Ast, int), ParseErr>((node, pos + render(node).len())),
    decreases node, 0int,
{
    lemma_render(node);
    lemma_wf(node);
    let condition = *node->If_condition;
    let body = node->If_body;
    let else_body = node->If_else_body;
    let end = pos + render(node).len();
    lemma_cons(
        toks,
        pos,
        kw("if"@),
        join(one_arg(wrap(condition)), (join(block(body), else_part(else_body)))),
    );
    lemma_split(toks, pos + 1, one_arg(wrap(condition)), join(block(body), else_part(else_body)));
    let p1 = pos + 1 + one_arg(wrap(condition)).len();
    lemma_split(toks, p1, block(body), else_part(else_body));
    let p2 = p1 + block(body).len();
    lemma_one_arg(toks, pos + 1, condition);
    lemma_block(toks, p1, body);
    lemma_else(toks, p2, else_body);
    lemma_if_parts(toks, pos, condition, body, else_body, p1, p2, end);
}

/// A built-in form with one operand parses from its parts.
#[verifier::rlimit(100)]
pub proof fn lemma_unary_parts(toks: Tokens, pos: int, node: Ast, x: Ast, end: int)
    requires
        0 <= pos,
        pos + 1 < end <= toks.len(),
        (node == (Ast::Print { left: Box::new(x) }) && toks[pos] == kw("print"@)) || (node
            == Ast::Delete(Box::new(x)) && toks[pos] == kw("del"@)) || (node == (Ast::Sleep {
            expr: Box::new(x),
        }) && toks[pos] == kw("sleep"@)) || (node == (Ast::TypeFunc { expr: Box::new(x) })
            && toks[pos] == kw("type"@)),
        g_one_arg(toks, pos + 1) == Ok::<(Ast, int), ParseErr>((x, end)),
        at(toks, end, "RPAREN"@),
    ensures
        g_expr(toks, pos) == Ok::<(Ast, int), ParseErr>((node, end)),
{
    lemma_kinds();
    lemma_keywords();
    let word = toks[pos].1;
    if node is Print {
        assert(g_keyword(toks, pos + 1, word) == Ok::<(Ast, int), ParseErr>((node, end)));
    } else {
        assert(g_keyword_more(toks, pos + 1, word) == Ok::<(Ast, int), ParseErr>((node, end)));
        assert(g_keyword(toks, pos + 1, word) == Ok::<(Ast, int), ParseErr>((node, end)));
    }
    lemma_keyword_base(toks, pos, word, node, end);
    lemma_finish(toks, pos, end, node, true);
}

/// A built-in form with one operand.
#[verifier::rlimit(100)]
pub proof fn lemma_bare_unary(toks: Tokens, pos: int, node: Ast)
    requires
        node is Print || node is Delete || node is Sleep || node is TypeFunc,
        well_formed(node),
        holds(toks, pos, render(node)),
        at(toks, pos + render(node).len(), "RPAREN"@),
    ensures
        g_expr(toks, pos) == Ok::<(Ast, int), ParseErr>((node, pos + render(node).len())),
    decreases node, 0int,
{
    lemma_render(node);
    lemma_wf(node);
    let end = pos + render(node).len();
    match node {
        Ast::Print { left } => {
            lemma_cons(toks, pos, kw("print"@), one_arg(wrap(*left)));
            lemma_one_arg(toks, pos + 1, *left);
            lemma_unary_parts(toks, pos, node, *left, end);
        },
        Ast::Delete(operand) => {
            lemma_cons(toks, pos, kw("del"@), one_arg(wrap(*operand)));
            lemma_one_arg(toks, pos + 1, *operand);
            lemma_unary_parts(toks, pos, node, *operand, end);
        },
        Ast::Sleep { expr } => {
            lemma_cons(toks, pos, kw("sleep"@), one_arg(wrap(*expr)));
            lemma_one_arg(toks, pos + 1, *expr);
            lemma_unary_parts(toks, pos, node, *expr, end);
        },
        Ast::TypeFunc { expr } => {
            lemma_cons(toks, pos, kw("type"@), one_arg(wrap(*expr)));
            lemma_one_arg(toks, pos + 1, *expr);
            lemma_unary_parts(toks, pos, node, *expr, end);
        },
        _ => {},
    }
}

/// A `random`.
#[verifier::rlimit(100)]
pub proof fn lemma_bare_random(toks: Tokens, pos: int, node: Ast)
    requires
        node is Random,
        well_formed(node),
        holds(toks, pos, render(node)),
        at(toks, pos + render(node).len(), "RPAREN"@),
    ensures
        g_expr(toks, pos) == Ok::<(Ast, int), ParseErr>((node, pos + render(node).len())),
    decreases node, 0int,
{
    lemma_render(node);
    lemma_wf(node);
    lemma_kinds();
    let a = *node->Random_left;
    let b = *node->Random_right;
    let end = pos + render(node).len();
    let wa = wrap(a);
    let wb = wrap(b);
    lemma_cons(toks, pos, kw("random"@), two_args(wa, wb));
    lemma_cons(toks, pos + 1, lp(), join(wa, cons(comma(), join(wb, one(rp())))));
    lemma_split(toks, pos + 2, wa, cons(comma(), join(wb, one(rp()))));
    let mid = pos + 2 + wa.len();
    lemma_cons(toks, mid, comma(), join(wb, one(rp())));
    lemma_split(toks, mid + 1, wb, one(rp()));
    lemma_one(toks, mid + 1 + wb.len(), rp());
    lemma_wrapped_expr(toks, pos + 2, a);
    lemma_wrapped_expr(toks, mid + 1, b);
    lemma_two_args(toks, pos + 1, a, b, mid, end);
    lemma_pair_parts(toks, pos, node, a, b, end);
}

/// A `compile`.
#[verifier::rlimit(100)]
pub proof fn lemma_bare_compile(toks: Tokens, pos: int, node: Ast)
    requires
        node is Compile,
        well_formed(node),
        holds(toks, pos, render(node)),
        at(toks, pos + render(node).len(), "RPAREN"@),
    ensures
        g_expr(toks, pos) == Ok::<(Ast, int), ParseErr>((node, pos + render(node).len())),
    decreases node, 0int,
{
    lemma_render(node);
    lemma_wf(node);
    lemma_kinds();
    let a = *node->Compile_expr;
    let b = *node->Compile_regex;
    let end = pos + render(node).len();
    let wa = wrap(a);
    let wb = wrap(b);
    lemma_cons(toks, pos, kw("compile"@), two_args(wa, wb));
    lemma_cons(toks, pos + 1, lp(), join(wa, cons(comma(), join(wb, one(rp())))));
    lemma_split(toks, pos + 2, wa, cons(comma(), join(wb, one(rp()))));
    let mid = pos + 2 + wa.len();
    lemma_cons(toks, mid, comma(), join(wb, one(rp())));
    lemma_split(toks, mid + 1, wb, one(rp()));
    lemma_one(toks, mid + 1 + wb.len(), rp());
    lemma_wrapped_expr(toks, pos + 2, a);
    lemma_wrapped_expr(toks, mid + 1, b);
    lemma_two_args(toks, pos + 1, a, b, mid, end);
    lemma_pair_parts(toks, pos, node, a, b, end);
}

/// A `compile_all`.
#[verifier::rlimit(100)]
pub proof fn lemma_bare_compile_all(toks: Tokens, pos: int, node: Ast)
    requires
        node is CompileAll,
        well_formed(node),
        holds(toks, pos, render(node)),
        at(toks, pos + render(node).len(), "RPAREN"@),
    ensures
        g_expr(toks, pos) == Ok::<(Ast, int), ParseErr>((node, pos + render(node).len())),
    decreases node, 0int,
{
    lemma_render(node);
    lemma_wf(node);
    lemma_kinds();
    let a = *node->CompileAll_expr;
    let b = *node->CompileAll_regex;
    let end = pos + render(node).len();
    let wa = wrap(a);
    let wb = wrap(b);
    lemma_cons(toks, pos, kw("compile_all"@), two_args(wa, wb));
    lemma_cons(toks, pos + 1, lp(), join(wa, cons(comma(), join(wb, one(rp())))));
    lemma_split(toks, pos + 2, wa, cons(comma(), join(wb, one(rp()))));
    let mid = pos + 2 + wa.len();
    lemma_cons(toks, mid, comma(), join(wb, one(rp())));
    lemma_split(toks, mid + 1, wb, one(rp()));
    lemma_one(toks, mid + 1 + wb.len(), rp());
    lemma_wrapped_expr(toks, pos + 2, a);
    lemma_wrapped_expr(toks, mid + 1, b);
    lemma_two_args(toks, pos + 1, a, b, mid, end);
    lemma_pair_parts(toks, pos, node, a, b, end);
}


/// An import or an input parses from its tokens.
#[verifier::rlimit(100)]
pub proof fn lemma_plain_parts(toks: Tokens, pos: int, node: Ast, end: int)
    requires
        0 <= pos,
        end <= toks.len(),
        match node {
            Ast::Import { path } => end == pos + 2 && toks[pos] == kw("import"@) && toks[pos + 1]
                == ("STRING"@, path),
            Ast::Input { placeholder } => end == pos + 4 && toks[pos] == kw("input"@) && toks[pos
                + 1] == lp() && toks[pos + 2] == ("STRING"@, placeholder) && toks[pos + 3] == rp(),
            _ => false,
        },
        at(toks, end, "RPAREN"@),
    ensures
        g_expr(toks, pos) == Ok::<(Ast, int), ParseErr>((node, end)),
{
    lemma_kinds();
    lemma_keywords();
    match node {
        Ast::Import { path } => {
            assert(expect(toks, pos + 1, "STRING"@) == Ok::<(Seq<char>, int), ParseErr>((path, pos + 2)));
            assert(g_keyword(toks, pos + 1, "import"@) == Ok::<(Ast, int), ParseErr>((node, end)));
            lemma_keyword_base(toks, pos, "import"@, node, end);
        },
        Ast::Input { placeholder } => {
            assert(expect(toks, pos + 1, "LPAREN"@) == Ok::<(Seq<char>, int), ParseErr>(("("@, pos + 2)));
            assert(expect(toks, pos + 2, "STRING"@) == Ok::<(Seq<char>, int), ParseErr>((placeholder, pos + 3)));
            assert(expect(toks, pos + 3, "RPAREN"@) == Ok::<(Seq<char>, int), ParseErr>((")"@, pos + 4)));
            assert(g_keyword(toks, pos + 1, "input"@) == Ok::<(Ast, int), ParseErr>((node, end)));
            lemma_keyword_base(toks, pos, "input"@, node, end);
        },
        _ => {},
    }
    lemma_finish(toks, pos, end, node, true);
}

/// An import or an input.
#[verifier::rlimit(100)]
pub proof fn lemma_bare_plain(toks: Tokens, pos: int, node: Ast)
    requires
        node is Import || node is Input,
        well_formed(node),
        holds(toks, pos, render(node)),
        at(toks, pos + render(node).len(), "RPAREN"@),
    ensures
        g_expr(toks, pos) == Ok::<(Ast, int), ParseErr>((node, pos + render(node).len())),
    decreases node, 0int,
{
    lemma_render(node);
    lemma_wf(node);
    let end = pos + render(node).len();
    match node {
        Ast::Import { path } => {
            lemma_cons(toks, pos, kw("import"@), one(("STRING"@, path)));
            lemma_one(toks, pos + 1, ("STRING"@, path));
        },
        Ast::Input { placeholder } => {
            lemma_cons(
                toks,
                pos,
                kw("input"@),
                cons(lp(), cons(("STRING"@, placeholder), one(rp()))),
            );
            lemma_cons(toks, pos + 1, lp(), cons(("STRING"@, placeholder), one(rp())));
            lemma_cons(toks, pos + 2, ("STRING"@, placeholder), one(rp()));
            lemma_one(toks, pos + 3, rp());
        },
        _ => {},
    }
    lemma_plain_parts(toks, pos, node, end);
}

/// A declaration parses from its parts.
#[verifier::rlimit(100)]
pub proof fn lemma_let_parts(
    toks: Tokens,
    pos: int,
    name: Seq<char>,
    constant: bool,
    t: Type,
    value: Ast,
    p: int,
    end: int,
)
    requires
        0 <= pos,
        p == pos + 4 + if constant {
            1int
        } else {
            0int
        },
        p + 1 < end <= toks.len(),
        toks[pos] == kw("let"@),
        toks[pos + 1] == name_tok(name),
        toks[pos + 2] == colon(),
        g_type(toks, pos + 3) == Ok::<(Type, int), ParseErr>((t, pos + 4)),
        constant ==> toks[pos + 4] == op_tok("&"@),
        toks[p] == gets(),
        g_expr(toks, p + 1) == Ok::<(Ast, int), ParseErr>((value, end)),
        at(toks, end, "RPAREN"@),
    ensures
        g_expr(toks, pos) == Ok::<(Ast, int), ParseErr>(
            (
                Ast::Let {
                    name,
                    is_const: constant,
                    var_type: Some(t),
                    var_value: Box::new(value),
                },
                end,
            ),
        ),
{
    lemma_kinds();
    lemma_keywords();
    let node = Ast::Let { name, is_const: constant, var_type: Some(t), var_value: Box::new(value) };
    assert(expect(toks, pos + 1, "ID"@) == Ok::<(Seq<char>, int), ParseErr>((name, pos + 2)));
    assert(expect(toks, p, "ASSIGN"@) == Ok::<(Seq<char>, int), ParseErr>(("="@, p + 1)));
    assert(g_let(toks, pos + 1) == Ok::<(Ast, int), ParseErr>((node, end)));
    assert(g_keyword(toks, pos + 1, "let"@) == Ok::<(Ast, int), ParseErr>((node, end)));
    lemma_keyword_base(toks, pos, "let"@, node, end);
    lemma_finish(toks, pos, end, node, true);
}

/// A declaration.
#[verifier::rlimit(100)]
pub proof fn lemma_bare_let(toks: Tokens, pos: int, node: Ast)
    requires
        node is Let,
        well_formed(node),
        holds(toks, pos, render(node)),
        at(toks, pos + render(node).len(), "RPAREN"@),
    ensures
        g_expr(toks, pos) == Ok::<(Ast, int), ParseErr>((node, pos + render(node).len())),
    decreases node, 0int,
{
    lemma_render(node);
    lemma_wf(node);
    lemma_kinds();
    let name = node->Let_name;
    let is_const = node->Let_is_const;
    let t = node->Let_var_type->0;
    let value = *node->Let_var_value;
    let end = pos + render(node).len();
    let r4 = join(const_part(is_const), cons(gets(), wrap(value)));
    lemma_cons(toks, pos, kw("let"@), cons(name_tok(name), cons(colon(), cons(type_tok(t), r4))));
    lemma_cons(toks, pos + 1, name_tok(name), cons(colon(), cons(type_tok(t), r4)));
    lemma_cons(toks, pos + 2, colon(), cons(type_tok(t), r4));
    lemma_cons(toks, pos + 3, type_tok(t), r4);
    lemma_split(toks, pos + 4, const_part(is_const), cons(gets(), wrap(value)));
    let p = pos + 4 + const_part(is_const).len();
    lemma_cons(toks, p, gets(), wrap(value));
    lemma_type(toks, pos + 3, t);
    if is_const {
        lemma_one(toks, pos + 4, op_tok("&"@));
    }
    lemma_wrapped_expr(toks, p + 1, value);
    lemma_let_parts(toks, pos, name, is_const, t, value, p, end);
}

/// A loop that runs while its condition holds parses from its parts.
#[verifier::rlimit(100)]
pub proof fn lemma_while_parts(
    toks: Tokens,
    pos: int,
    condition: Ast,
    body: Seq<Ast>,
    p1: int,
    end: int,
)
    requires
        0 <= pos,
        pos + 1 < p1 < end <= toks.len(),
        toks[pos] == kw("while"@),
        g_one_arg(toks, pos + 1) == Ok::<(Ast, int), ParseErr>((condition, p1)),
        g_block(toks, p1) == Ok::<(Seq<Ast>, int), ParseErr>((body, end)),
        at(toks, end, "RPAREN"@),
    ensures
        g_expr(toks, pos) == Ok::<(Ast, int), ParseErr>((Ast::While { condition: Box::new(condition), body }, end)),
{
    lemma_kinds();
    lemma_keywords();
    let node = Ast::While { condition: Box::new(condition), body };
    assert(g_keyword(toks, pos + 1, "while"@) == Ok::<(Ast, int), ParseErr>((node, end)));
    lemma_keyword_base(toks, pos, "while"@, node, end);
    lemma_finish(toks, pos, end, node, true);
}

/// A loop that runs while its condition holds.
#[verifier::rlimit(100)]
pub proof fn lemma_bare_while(toks: Tokens, pos: int, node: Ast)
    requires
        node is While,
        well_formed(node),
        holds(toks, pos, render(node)),
        at(toks, pos + render(node).len(), "RPAREN"@),
    ensures
        g_expr(toks, pos) == Ok::<(Ast, int), ParseErr>((node, pos + render(node).len())),
    decreases node, 0int,
{
    lemma_render(node);
    lemma_wf(node);
    let condition = *node->While_condition;
    let body = node->While_body;
    let end = pos + render(node).len();
    lemma_cons(toks, pos, kw("while"@), join(one_arg(wrap(condition)), block(body)));
    lemma_split(toks, pos + 1, one_arg(wrap(condition)), block(body));
    let p1 = pos + 1 + one_arg(wrap(condition)).len();
    assert(end == p1 + block(body).len());
    lemma_one_arg(toks, pos + 1, condition);
    lemma_block(toks, p1, body);
    lemma_while_parts(toks, pos, condition, body, p1, end);
}

/// The end of a loop with three expressions parses as it was written.
#[verifier::rlimit(100)]
pub proof fn lemma_for_third(toks: Tokens, pos: int, node: Ast)
    requires
        node is For,
        well_formed(node),
        holds(
            toks,
            pos,
            join(wrap(*node->For_increment), cons(rp(), block(node->For_body))),
        ),
    ensures
        ({
            let c = pos + wrap(*node->For_increment).len();
            let end = c + 1 + block(node->For_body).len();
            &&& pos < c < end <= toks.len()
            &&& g_one_closed(toks, pos) == Ok::<(Ast, int), ParseErr>((*node->For_increment, c + 1))
            &&& g_block(toks, c + 1) == Ok::<(Seq<Ast>, int), ParseErr>((node->For_body, end))
            &&& join(wrap(*node->For_increment), cons(rp(), block(node->For_body))).len() == end
                - pos
        }),
    decreases node, 0int,
{
    lemma_wf(node);
    lemma_kinds();
    let increment = *node->For_increment;
    let body = node->For_body;
    lemma_split(toks, pos, wrap(increment), cons(rp(), block(body)));
    let c = pos + wrap(increment).len();
    lemma_cons(toks, c, rp(), block(body));
    lemma_wrapped_expr(toks, pos, increment);
    lemma_block(toks, c + 1, body);
    assert(expect(toks, c, "RPAREN"@) == Ok::<(Seq<char>, int), ParseErr>((")"@, c + 1)));
}

/// An expression of a loop header and the comma after it parse as they
/// were written.
#[verifier::rlimit(100)]
pub proof fn lemma_comma_after(toks: Tokens, pos: int, x: Ast, rest: Tokens)
    requires
        well_formed(x),
        holds(toks, pos, join(wrap(x), cons(comma(), rest))),
    ensures
        g_expr_comma(toks, pos) == Ok::<(Ast, int), ParseErr>((x, pos + wrap(x).len() + 1)),
        holds(toks, pos + wrap(x).len() + 1, rest),
        join(wrap(x), cons(comma(), rest)).len() == wrap(x).len() + 1 + rest.len(),
        wrap(x).len() >= 2,
        0 <= pos < toks.len(),
        toks[pos] == lp(),
    decreases x, 9int,
{
    lemma_kinds();
    lemma_split(toks, pos, wrap(x), cons(comma(), rest));
    let a = pos + wrap(x).len();
    lemma_cons(toks, a, comma(), rest);
    lemma_wrap_first(toks, pos, x);
    lemma_wrapped_expr(toks, pos, x);
    assert(expect(toks, a, "COMMA"@) == Ok::<(Seq<char>, int), ParseErr>((","@, a + 1)));
}

/// A loop is made of its four parts.
pub proof fn lemma_for_whole(node: Ast)
    requires
        node is For,
    ensures
        node == (Ast::For {
            init: Box::new(*node->For_init),
            condition: Box::new(*node->For_condition),
            increment: Box::new(*node->For_increment),
            body: node->For_body,
        }),
{
}

/// The three expressions and the body of a loop parse as they were
/// written.
#[verifier::rlimit(100)]
pub proof fn lemma_for_inside(toks: Tokens, pos: int, node: Ast)
    requires
        node is For,
        well_formed(node),
        holds(
            toks,
            pos,
            join(
                wrap(*node->For_init),
                cons(
                    comma(),
                    join(
                        wrap(*node->For_condition),
                        cons(
                            comma(),
                            join(wrap(*node->For_increment), cons(rp(), block(node->For_body))),
                        ),
                    ),
                ),
            ),
        ),
    ensures
        ({
            let r3 = join(wrap(*node->For_increment), cons(rp(), block(node->For_body)));
            let r2 = join(wrap(*node->For_condition), cons(comma(), r3));
            let r1 = join(wrap(*node->For_init), cons(comma(), r2));
            &&& 0 <= pos < toks.len()
            &&& toks[pos] == lp()
            &&& pos + r1.len() <= toks.len()
            &&& r1.len() >= 2
            &&& g_for_three(toks, pos) == Ok::<(Ast, int), ParseErr>((node, pos + r1.len()))
        }),
    decreases node, 1int,
{
    lemma_wf(node);
    lemma_for_whole(node);
    let init = *node->For_init;
    let condition = *node->For_condition;
    let increment = *node->For_increment;
    let body = node->For_body;
    let r3 = join(wrap(increment), cons(rp(), block(body)));
    let r2 = join(wrap(condition), cons(comma(), r3));
    let r1 = join(wrap(init), cons(comma(), r2));
    lemma_comma_after(toks, pos, init, r2);
    let a = pos + wrap(init).len();
    assert(r1.len() == wrap(init).len() + 1 + r2.len());
    assert(g_expr_comma(toks, pos) == Ok::<(Ast, int), ParseErr>((init, a + 1)));
    lemma_comma_after(toks, a + 1, condition, r3);
    let b = a + 1 + wrap(condition).len();
    assert(r2.len() == wrap(condition).len() + 1 + r3.len());
    assert(g_expr_comma(toks, a + 1) == Ok::<(Ast, int), ParseErr>((condition, b + 1)));
    lemma_for_third(toks, b + 1, node);
    let c = b + 1 + wrap(increment).len();
    let end = c + 1 + block(body).len();
    assert(r3.len() == end - (b + 1));
    assert(end == pos + r1.len());
    assert(pos < a < b < c < end <= toks.len());
    lemma_for_three(toks, pos, init, condition, increment, body, a, b, c, end);
}

/// A loop with three expressions in its header.
#[verifier::rlimit(100)]
pub proof fn lemma_bare_for(toks: Tokens, pos: int, node: Ast)
    requires
        node is For,
        well_formed(node),
        holds(toks, pos, render(node)),
        at(toks, pos + render(node).len(), "RPAREN"@),
    ensures
        g_expr(toks, pos) == Ok::<(Ast, int), ParseErr>((node, pos + render(node).len())),
    decreases node, 2int,
{
    lemma_render(node);
    let r3 = join(wrap(*node->For_increment), cons(rp(), block(node->For_body)));
    let r2 = join(wrap(*node->For_condition), cons(comma(), r3));
    let r1 = join(wrap(*node->For_init), cons(comma(), r2));
    lemma_cons(toks, pos, kw("for"@), cons(lp(), r1));
    lemma_cons(toks, pos + 1, lp(), r1);
    lemma_for_inside(toks, pos + 2, node);
    lemma_for_parts(toks, pos, node, pos + render(node).len());
}

/// A loop over the items of a value.
#[verifier::rlimit(100)]
pub proof fn lemma_bare_for_in(toks: Tokens, pos: int, node: Ast)
    requires
        node is ForIn,
        well_formed(node),
        holds(toks, pos, render(node)),
        at(toks, pos + render(node).len(), "RPAREN"@),
    ensures
        g_expr(toks, pos) == Ok::<(Ast, int), ParseErr>((node, pos + render(node).len())),
    decreases node, 0int,
{
    lemma_render(node);
    lemma_wf(node);
    let var = node->ForIn_var;
    let iterable = *node->ForIn_iterable;
    let body = node->ForIn_body;
    let end = pos + render(node).len();
    let r1 = join(wrap(iterable), cons(rp(), block(body)));
    lemma_cons(toks, pos, kw("for"@), cons(lp(), cons(name_tok(var), cons(kw("in"@), r1))));
    lemma_cons(toks, pos + 1, lp(), cons(name_tok(var), cons(kw("in"@), r1)));
    lemma_cons(toks, pos + 2, name_tok(var), cons(kw("in"@), r1));
    lemma_cons(toks, pos + 3, kw("in"@), r1);
    lemma_split(toks, pos + 4, wrap(iterable), cons(rp(), block(body)));
    let a = pos + 4 + wrap(iterable).len();
    lemma_cons(toks, a, rp(), block(body));
    lemma_kinds();
    lemma_wrapped_expr(toks, pos + 4, iterable);
    lemma_block(toks, a + 1, body);
    lemma_for_in_parts(toks, pos, var, iterable, body, a, end);
}

/// A `return` parses from its parts.
#[verifier::rlimit(100)]
pub proof fn lemma_return_parts(toks: Tokens, pos: int, value: Ast, end: int)
    requires
        0 <= pos,
        pos + 1 < end <= toks.len(),
        toks[pos] == kw("return"@),
        g_expr(toks, pos + 1) == Ok::<(Ast, int), ParseErr>((value, end)),
        at(toks, end, "RPAREN"@),
    ensures
        g_expr(toks, pos) == Ok::<(Ast, int), ParseErr>((Ast::Return(Box::new(value)), end)),
{
    lemma_kinds();
    lemma_keywords();
    let node = Ast::Return(Box::new(value));
    assert(g_keyword_more(toks, pos + 1, "return"@) == Ok::<(Ast, int), ParseErr>((node, end)));
    assert(g_keyword(toks, pos + 1, "return"@) == Ok::<(Ast, int), ParseErr>((node, end)));
    lemma_keyword_base(toks, pos, "return"@, node, end);
    lemma_finish(toks, pos, end, node, true);
}

/// A `return`.
#[verifier::rlimit(100)]
pub proof fn lemma_bare_return(toks: Tokens, pos: int, node: Ast)
    requires
        node is Return,
        well_formed(node),
        holds(toks, pos, render(node)),
        at(toks, pos + render(node).len(), "RPAREN"@),
    ensures
        g_expr(toks, pos) == Ok::<(Ast, int), ParseErr>((node, pos + render(node).len())),
    decreases node, 0int,
{
    lemma_render(node);
    lemma_wf(node);
    let value = *node->Return_0;
    let end = pos + render(node).len();
    lemma_cons(toks, pos, kw("return"@), wrap(value));
    assert(end == pos + 1 + wrap(value).len());
    lemma_kinds();
    lemma_wrapped_expr(toks, pos + 1, value);
    lemma_return_parts(toks, pos, value, end);
}

/// A function declaration parses from its parts.
#[verifier::rlimit(100)]
pub proof fn lemma_function_parts(
    toks: Tokens,
    pos: int,
    name: Seq<char>,
    params: Seq<ParamView>,
    body: Seq<Ast>,
    a: int,
    end: int,
)
    requires
        0 <= pos,
        pos + 3 <= a,
        a + 1 < end <= toks.len(),
        toks[pos] == kw("func"@),
        toks[pos + 1] == name_tok(name),
        toks[pos + 2] == lp(),
        g_params(toks, pos + 3) == Ok::<(Seq<ParamView>, int), ParseErr>((params, a)),
        toks[a] == rp(),
        toks[a + 1] == lbrace(),
        g_block(toks, a + 1) == Ok::<(Seq<Ast>, int), ParseErr>((body, end)),
        at(toks, end, "RPAREN"@),
    ensures
        g_expr(toks, pos) == Ok::<(Ast, int), ParseErr>((Ast::Function { name, params, body }, end)),
{
    lemma_kinds();
    lemma_keywords();
    let node = Ast::Function { name, params, body };
    assert(expect(toks, pos + 1, "ID"@) == Ok::<(Seq<char>, int), ParseErr>((name, pos + 2)));
    assert(expect(toks, pos + 2, "LPAREN"@) == Ok::<(Seq<char>, int), ParseErr>(("("@, pos + 3)));
    assert(expect(toks, a, "RPAREN"@) == Ok::<(Seq<char>, int), ParseErr>((")"@, a + 1)));
    assert(g_function(toks, pos + 1) == Ok::<(Ast, int), ParseErr>((node, end)));
    assert(g_keyword_more(toks, pos + 1, "func"@) == Ok::<(Ast, int), ParseErr>((node, end)));
    assert(g_keyword(toks, pos + 1, "func"@) == Ok::<(Ast, int), ParseErr>((node, end)));
    lemma_keyword_base(toks, pos, "func"@, node, end);
    lemma_finish(toks, pos, end, node, true);
}

/// A function declaration.
#[verifier::rlimit(100)]
pub proof fn lemma_bare_function(toks: Tokens, pos: int, node: Ast)
    requires
        node is Function,
        well_formed(node),
        holds(toks, pos, render(node)),
        at(toks, pos + render(node).len(), "RPAREN"@),
    ensures
        g_expr(toks, pos) == Ok::<(Ast, int), ParseErr>((node, pos + render(node).len())),
    decreases node, 0int,
{
    lemma_render(node);
    lemma_wf(node);
    let name = node->Function_name;
    let params = node->Function_params;
    let body = node->Function_body;
    let end = pos + render(node).len();
    let r1 = join(params_toks(params), cons(rp(), block(body)));
    lemma_cons(toks, pos, kw("func"@), cons(name_tok(name), cons(lp(), r1)));
    lemma_cons(toks, pos + 1, name_tok(name), cons(lp(), r1));
    lemma_cons(toks, pos + 2, lp(), r1);
    lemma_split(toks, pos + 3, params_toks(params), cons(rp(), block(body)));
    let a = pos + 3 + params_toks(params).len();
    lemma_cons(toks, a, rp(), block(body));
    lemma_cons(toks, a + 1, lbrace(), join(stmts(body, 0), one(rbrace())));
    lemma_kinds();
    lemma_params(toks, pos + 3, params);
    lemma_block(toks, a + 1, body);
    lemma_function_parts(toks, pos, name, params, body, a, end);
}

/// A conversion parses from its parts.
#[verifier::rlimit(100)]
pub proof fn lemma_to_parts(toks: Tokens, pos: int, types: Type, expr: Ast, end: int)
    requires
        0 <= pos,
        pos + 4 < end - 1,
        end <= toks.len(),
        toks[pos] == kw("to"@),
        toks[pos + 1] == lp(),
        g_type(toks, pos + 2) == Ok::<(Type, int), ParseErr>((types, pos + 3)),
        toks[pos + 3] == comma(),
        g_expr(toks, pos + 4) == Ok::<(Ast, int), ParseErr>((expr, end - 1)),
        toks[end - 1] == rp(),
        at(toks, end, "RPAREN"@),
    ensures
        g_expr(toks, pos) == Ok::<(Ast, int), ParseErr>((Ast::ToType { types, expr: Box::new(expr) }, end)),
{
    lemma_kinds();
    lemma_keywords();
    let node = Ast::ToType { types, expr: Box::new(expr) };
    assert(expect(toks, pos + 1, "LPAREN"@) == Ok::<(Seq<char>, int), ParseErr>(("("@, pos + 2)));
    assert(expect(toks, pos + 3, "COMMA"@) == Ok::<(Seq<char>, int), ParseErr>((","@, pos + 4)));
    assert(expect(toks, end - 1, "RPAREN"@) == Ok::<(Seq<char>, int), ParseErr>((")"@, end)));
    assert(g_to(toks, pos + 1) == Ok::<(Ast, int), ParseErr>((node, end)));
    assert(g_keyword_more(toks, pos + 1, "to"@) == Ok::<(Ast, int), ParseErr>((node, end)));
    assert(g_keyword(toks, pos + 1, "to"@) == Ok::<(Ast, int), ParseErr>((node, end)));
    lemma_keyword_base(toks, pos, "to"@, node, end);
    lemma_finish(toks, pos, end, node, true);
}

/// A conversion.
#[verifier::rlimit(100)]
pub proof fn lemma_bare_to(toks: Tokens, pos: int, node: Ast)
    requires
        node is ToType,
        well_formed(node),
        holds(toks, pos, render(node)),
        at(toks, pos + render(node).len(), "RPAREN"@),
    ensures
        g_expr(toks, pos) == Ok::<(Ast, int), ParseErr>((node, pos + render(node).len())),
    decreases node, 0int,
{
    lemma_render(node);
    lemma_wf(node);
    lemma_kinds();
    let types = node->ToType_types;
    let expr = *node->ToType_expr;
    let end = pos + render(node).len();
    let r1 = join(wrap(expr), one(rp()));
    lemma_cons(toks, pos, kw("to"@), cons(lp(), cons(type_tok(types), cons(comma(), r1))));
    lemma_cons(toks, pos + 1, lp(), cons(type_tok(types), cons(comma(), r1)));
    lemma_cons(toks, pos + 2, type_tok(types), cons(comma(), r1));
    lemma_cons(toks, pos + 3, comma(), r1);
    lemma_split(toks, pos + 4, wrap(expr), one(rp()));
    lemma_one(toks, pos + 4 + wrap(expr).len(), rp());
    lemma_type(toks, pos + 2, types);
    lemma_wrapped_expr(toks, pos + 4, expr);
    lemma_to_parts(toks, pos, types, expr, end);
}

/// The tokens of a program: its statements, each between parentheses.
pub open spec fn render_program(nodes: Seq<Ast>) -> Tokens {
    stmts(nodes, 0)
}

/// Parse round trip. A program written down in its canonical form, every
/// statement and every operand between parentheses, parses as the program
/// it was written for.
pub proof fn lemma_parse_round_trip(nodes: Seq<Ast>)
    requires
        all_well_formed(nodes, 0),
    ensures
        parse_tokens(render_program(nodes)) == Ok::<Seq<Ast>, ParseErr>(nodes),
{
    let toks = render_program(nodes);
    assert(holds(toks, 0, toks)) by {
        reveal(holds);
        assert(toks.subrange(0, toks.len() as int) =~= toks);
    }
    lemma_program(toks, 0, nodes, 0, Seq::empty());
    assert(Seq::<Ast>::empty() + nodes.skip(0) =~= nodes);
}

} // verus!
