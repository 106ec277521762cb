//! The recursive-descent parser. Every method is proved to compute the
//! grammar function of the same construct.

use crate::ast::{
    nodes_view, opt_nodes_view, params_view, Ast, AstNode, PairKind, Param, ParamView, Type,
};
use crate::grammar::{
    at, at_word, before, expect, g_array, g_array_more, g_base, g_block, g_block_items,
    g_call_args, g_comma_items, g_comparison, g_comparison_rest, g_expr, g_expr_rest, g_factor,
    g_expr_comma, g_for, g_for_in, g_for_tail, g_for_three, g_function, g_keyword, g_keyword_more, g_let, g_method_args, g_named, g_one_arg, g_one_closed, g_optional_else,
    g_param, g_params, g_params_more, g_program, g_question, g_suffix, g_term, g_term_rest, g_to,
    g_two_args, g_type, is_additive, is_comparison, is_multiplicative, is_step, literal_type,
    type_of_word, ParseErr, Parsed, Tokens,
};
use crate::lexer::token_views;
use crate::text::{decimal, decimal_literal, display_count, parse_int, text_is};
use vstd::prelude::*;

verus! {

/// A parser diagnostic. Positions count tokens.
#[derive(Debug, PartialEq)]
pub enum ParserError {
    /// Another kind of token stands where `expected` was due.
    SyntaxError { pos: usize, expected: String, found: String },
    /// The tokens end where one more was due.
    UnexpectedEof { pos: usize },
    /// A word or a value is not of the kind that its place asks for.
    TypeError { expected: String, actual: String, context: String },
    /// A rule of the grammar that is not carried out.
    NotImplemented { function: String, node_info: String, pos: usize },
    /// A token that starts no expression.
    UnexpectedToken { token_type: String, token_value: String, pos: usize },
}

impl View for ParserError {
    type V = ParseErr;

    open spec fn view(&self) -> ParseErr {
        match self {
            ParserError::SyntaxError { pos, expected, found } => ParseErr::SyntaxError {
                pos: *pos,
                expected: expected@,
                found: found@,
            },
            ParserError::UnexpectedEof { pos } => ParseErr::UnexpectedEof { pos: *pos },
            ParserError::TypeError { expected, actual, context } => ParseErr::TypeError {
                expected: expected@,
                actual: actual@,
                context: context@,
            },
            ParserError::NotImplemented { function, node_info, pos } => ParseErr::NotImplemented {
                function: function@,
                node_info: node_info@,
                pos: *pos,
            },
            ParserError::UnexpectedToken {
                token_type,
                token_value,
                pos,
            } => ParseErr::UnexpectedToken {
                token_type: token_type@,
                token_value: token_value@,
                pos: *pos,
            },
        }
    }
}

/// What a parser diagnostic says.
pub open spec fn diagnostic_text(e: ParseErr) -> Seq<char> {
    match e {
        ParseErr::SyntaxError { pos, expected, found } => "Syntax error at position "@ + decimal(
            pos as int,
        ) + ": expected "@ + expected + ", found "@ + found,
        ParseErr::UnexpectedEof { pos } => "Unexpected end of input at position "@ + decimal(
            pos as int,
        ),
        ParseErr::TypeError { expected, actual, context } => "Type error: expected "@ + expected
            + ", got "@ + actual + " - "@ + context,
        ParseErr::NotImplemented { function, node_info, pos } => "Not implemented: "@ + function
            + " - "@ + node_info,
        ParseErr::UnexpectedToken { token_type, token_value, pos } => "Unexpected token: "@
            + token_type + " = '"@ + token_value + "' at position "@ + decimal(pos as int),
    }
}

impl ParserError {
    /// What the diagnostic says.
    pub fn message(&self) -> (r: String)
        ensures
            r@ == diagnostic_text(self@),
    {
        match self {
            ParserError::SyntaxError { pos, expected, found } => {
                let mut out = "Syntax error at position ".to_owned();
                out.append(display_count(*pos).as_str());
                out.append(": expected ");
                out.append(expected.as_str());
                out.append(", found ");
                out.append(found.as_str());
                out
            },
            ParserError::UnexpectedEof { pos } => {
                let mut out = "Unexpected end of input at position ".to_owned();
                out.append(display_count(*pos).as_str());
                out
            },
            ParserError::TypeError { expected, actual, context } => {
                let mut out = "Type error: expected ".to_owned();
                out.append(expected.as_str());
                out.append(", got ");
                out.append(actual.as_str());
                out.append(" - ");
                out.append(context.as_str());
                out
            },
            ParserError::NotImplemented { function, node_info, pos } => {
                let mut out = "Not implemented: ".to_owned();
                out.append(function.as_str());
                out.append(" - ");
                out.append(node_info.as_str());
                out
            },
            ParserError::UnexpectedToken { token_type, token_value, pos } => {
                let mut out = "Unexpected token: ".to_owned();
                out.append(token_type.as_str());
                out.append(" = '");
                out.append(token_value.as_str());
                out.append("' at position ");
                out.append(display_count(*pos).as_str());
                out
            },
        }
    }
}

/// A parser over a token list, and the position of the next token.
pub struct Parser {
    tokens: Vec<(String, String)>,
    pos: usize,
}

/// What a method that gives a node has computed, in the grammar's terms.
pub open spec fn node_outcome(res: Result<AstNode, ParserError>, end: int) -> Parsed<Ast> {
    match res {
        Ok(n) => Ok((n@, end)),
        Err(e) => Err(e@),
    }
}

/// What a method that gives a list of nodes has computed.
pub open spec fn nodes_outcome(res: Result<Vec<AstNode>, ParserError>, end: int) -> Parsed<
    Seq<Ast>,
> {
    match res {
        Ok(v) => Ok((nodes_view(v@), end)),
        Err(e) => Err(e@),
    }
}

/// What a method that gives a text has computed.
pub open spec fn text_outcome(res: Result<String, ParserError>, end: int) -> Parsed<Seq<char>> {
    match res {
        Ok(s) => Ok((s@, end)),
        Err(e) => Err(e@),
    }
}

/// Appending a node to a list appends its view.
pub proof fn lemma_nodes_push(before: Seq<AstNode>, node: AstNode)
    ensures
        nodes_view(before.push(node)) == nodes_view(before).push(node@),
{
    assert(nodes_view(before.push(node)) =~= nodes_view(before).push(node@));
}

/// A list of one node.
pub proof fn lemma_nodes_one(node: AstNode)
    ensures
        nodes_view(seq![node]) == seq![node@],
{
    assert(nodes_view(seq![node]) =~= seq![node@]);
}

/// The empty list.
pub proof fn lemma_nodes_none()
    ensures
        nodes_view(Seq::<AstNode>::empty()) == Seq::<Ast>::empty(),
{
    assert(nodes_view(Seq::<AstNode>::empty()) =~= Seq::<Ast>::empty());
}

/// Whether `op` is `+` or `-`.
pub fn additive(op: &str) -> (r: bool)
    ensures
        r == is_additive(op@),
{
    text_is(op, "+") || text_is(op, "-")
}

/// Whether `op` is `++` or `--`.
pub fn step_op(op: &str) -> (r: bool)
    ensures
        r == is_step(op@),
{
    text_is(op, "++") || text_is(op, "--")
}

/// Whether `op` is `*` or `/`.
pub fn multiplicative(op: &str) -> (r: bool)
    ensures
        r == is_multiplicative(op@),
{
    text_is(op, "*") || text_is(op, "/")
}

/// Whether `op` is a comparison or a logical operator.
pub fn comparison(op: &str) -> (r: bool)
    ensures
        r == is_comparison(op@),
{
    text_is(op, "==") || text_is(op, "!=") || text_is(op, "<") || text_is(op, ">") || text_is(
        op,
        "<=",
    ) || text_is(op, ">=") || text_is(op, "&&") || text_is(op, "||")
}

/// The type that `w` names, if it names one.
pub fn type_word(w: &str) -> (r: Option<Type>)
    ensures
        r == type_of_word(w@),
{
    if text_is(w, "int") {
        Some(Type::Int)
    } else if text_is(w, "float") {
        Some(Type::Float)
    } else if text_is(w, "bool") {
        Some(Type::Bool)
    } else if text_is(w, "string") {
        Some(Type::String)
    } else if text_is(w, "array") {
        Some(Type::Array)
    } else if text_is(w, "void") {
        Some(Type::Void)
    } else {
        None
    }
}

/// The type that a declaration without a type takes from its value.
pub fn infer_type(node: &AstNode) -> (r: Option<Type>)
    ensures
        r == literal_type(node@),
{
    match node {
        AstNode::Array(_) => Some(Type::Array),
        AstNode::String(_) => Some(Type::String),
        AstNode::Number(_) => Some(Type::Int),
        AstNode::Boolean(_) => Some(Type::Bool),
        AstNode::Float(_) => Some(Type::Float),
        _ => None,
    }
}

impl Parser {
    /// The position never passes the end of the tokens.
    #[verifier::type_invariant]
    closed spec fn in_bounds(&self) -> bool {
        self.pos <= self.tokens.len()
    }

    /// The tokens as contracts see them.
    pub closed spec fn toks(&self) -> Tokens {
        token_views(self.tokens@)
    }

    /// The position of the next token.
    pub closed spec fn position(&self) -> int {
        self.pos as int
    }

    /// Whether two parsers hold the same tokens.
    pub closed spec fn same_tokens(&self, other: &Parser) -> bool {
        self.tokens == other.tokens
    }

    /// Parsers that hold the same tokens show the same tokens.
    pub proof fn lemma_same_tokens(&self, other: &Parser)
        requires
            self.same_tokens(other),
        ensures
            self.toks() == other.toks(),
    {
    }

    /// A parser at the first of `tokens`.
    pub fn new(tokens: Vec<(String, String)>) -> (p: Self)
        ensures
            p.toks() == token_views(tokens@),
            p.position() == 0,
    {
        Parser { tokens, pos: 0 }
    }

    /// The next token, if one is left. Same as `current_token`.
    pub fn peek(&self) -> (t: Option<&(String, String)>)
        ensures
            match t {
                Some(tok) => 0 <= self.position() < self.toks().len() && (tok.0@, tok.1@)
                    == self.toks()[self.position()],
                None => self.position() == self.toks().len(),
            },
    {
        self.current_token()
    }

    /// The next token, if one is left.
    pub fn current_token(&self) -> (t: Option<&(String, String)>)
        ensures
            match t {
                Some(tok) => 0 <= self.position() < self.toks().len() && (tok.0@, tok.1@)
                    == self.toks()[self.position()],
                None => self.position() == self.toks().len(),
            },
    {
        proof {
            use_type_invariant(self);
        }
        if self.pos < self.tokens.len() {
            Some(&self.tokens[self.pos])
        } else {
            None
        }
    }

    /// Whether the next token has kind `kind`.
    fn at(&self, kind: &str) -> (r: bool)
        ensures
            r == at(self.toks(), self.pos as int, kind@),
    {
        match self.current_token() {
            Some(tok) => text_is(tok.0.as_str(), kind),
            None => false,
        }
    }

    /// Whether the next token has kind `kind` and lexeme `word`.
    fn at_word(&self, kind: &str, word: &str) -> (r: bool)
        ensures
            r == at_word(self.toks(), self.pos as int, kind@, word@),
    {
        match self.current_token() {
            Some(tok) => text_is(tok.0.as_str(), kind) && text_is(tok.1.as_str(), word),
            None => false,
        }
    }

    /// Whether a token is left, and of another kind than `kind`.
    fn before(&self, kind: &str) -> (r: bool)
        ensures
            r == before(self.toks(), self.pos as int, kind@),
    {
        match self.current_token() {
            Some(tok) => !text_is(tok.0.as_str(), kind),
            None => false,
        }
    }

    /// Passes one token.
    fn skip(&mut self)
        requires
            old(self).pos < old(self).tokens.len(),
        ensures
            final(self).tokens == old(self).tokens,
            final(self).pos == old(self).pos + 1,
    {
        self.pos = self.pos + 1;
    }

    /// Takes the next token, which must have kind `expected_type`, and gives
    /// its lexeme.
    pub fn consume(&mut self, expected_type: &str) -> (res: Result<String, ParserError>)
        ensures
            final(self).same_tokens(old(self)),
            final(self).toks() == old(self).toks(),
            0 <= final(self).position() <= final(self).toks().len(),
            expect(old(self).toks(), old(self).position(), expected_type@) == text_outcome(
                res,
                final(self).position(),
            ),
            res is Ok ==> final(self).position() == old(self).position() + 1,
            res is Err ==> final(self).position() == old(self).position(),
    {
        proof {
            use_type_invariant(&*self);
        }
        if self.pos < self.tokens.len() {
            let tok = &self.tokens[self.pos];
            if text_is(tok.0.as_str(), expected_type) {
                let value = tok.1.clone();
                self.pos = self.pos + 1;
                Ok(value)
            } else {
                Err(
                    ParserError::SyntaxError {
                        pos: self.pos,
                        expected: expected_type.to_owned(),
                        found: tok.0.clone(),
                    },
                )
            }
        } else {
            Err(ParserError::UnexpectedEof { pos: self.pos })
        }
    }

    /// The operator that stands next, without taking it.
    pub fn peek_op(&self) -> (res: Result<String, ParserError>)
        ensures
            match res {
                Ok(op) => at(self.toks(), self.position(), "OP"@) && op@
                    == self.toks()[self.position()].1,
                Err(e) => !at(self.toks(), self.position(), "OP"@) && e@ == expect(
                    self.toks(),
                    self.position(),
                    "OP"@,
                )->Err_0,
            },
    {
        if self.pos < self.tokens.len() {
            let tok = &self.tokens[self.pos];
            if text_is(tok.0.as_str(), "OP") {
                Ok(tok.1.clone())
            } else {
                Err(
                    ParserError::SyntaxError {
                        pos: self.pos,
                        expected: "OP".to_owned(),
                        found: tok.0.clone(),
                    },
                )
            }
        } else {
            Err(ParserError::UnexpectedEof { pos: self.pos })
        }
    }

    /// A type name.
    pub fn parse_type(&mut self) -> (res: Result<Type, ParserError>)
        ensures
            final(self).same_tokens(old(self)),
            final(self).toks() == old(self).toks(),
            0 <= final(self).position() <= final(self).toks().len(),
            g_type(old(self).toks(), old(self).position()) == match res {
                Ok(t) => Ok::<(Type, int), ParseErr>((t, final(self).position())),
                Err(e) => Err(e@),
            },
            final(self).position() == if at(old(self).toks(), old(self).position(), "TYPES"@) {
                old(self).position() + 1
            } else {
                old(self).position()
            },
    {
        proof {
            use_type_invariant(&*self);
        }
        let word = self.consume("TYPES")?;
        match type_word(word.as_str()) {
            Some(t) => Ok(t),
            None => Err(
                ParserError::TypeError {
                    expected: "type".to_owned(),
                    actual: word,
                    context: "type name".to_owned(),
                },
            ),
        }
    }

    /// A parameter: a name, and a type after a colon if there is one.
    pub fn parse_param(&mut self) -> (res: Result<Param, ParserError>)
        ensures
            final(self).same_tokens(old(self)),
            final(self).toks() == old(self).toks(),
            0 <= final(self).position() <= final(self).toks().len(),
            g_param(old(self).toks(), old(self).position()) == match res {
                Ok(p) => Ok::<(ParamView, int), ParseErr>((p@, final(self).position())),
                Err(e) => Err(e@),
            },
            res is Ok ==> old(self).position() < final(self).position()
                <= final(self).toks().len(),
            !at(old(self).toks(), old(self).position(), "ID"@) ==> final(self).position() == old(
                self,
            ).position(),
            at(old(self).toks(), old(self).position(), "ID"@) && !at(
                old(self).toks(),
                old(self).position() + 1,
                "COLON"@,
            ) ==> final(self).position() == old(self).position() + 1,
    {
        proof {
            use_type_invariant(&*self);
        }
        let name = self.consume("ID")?;
        if self.at("COLON") {
            self.skip();
            let t = self.parse_type()?;
            Ok(Param { name, param_type: Some(t) })
        } else {
            Ok(Param { name, param_type: None })
        }
    }

    /// The parameters after the first.
    fn parse_params_more(&mut self, acc: Vec<Param>) -> (res: Result<Vec<Param>, ParserError>)
        ensures
            final(self).same_tokens(old(self)),
            final(self).toks() == old(self).toks(),
            0 <= final(self).position() <= final(self).toks().len(),
            g_params_more(old(self).toks(), old(self).position(), params_view(acc@)) == match res {
                Ok(v) => Ok::<(Seq<ParamView>, int), ParseErr>(
                    (params_view(v@), final(self).position()),
                ),
                Err(e) => Err(e@),
            },
            res is Ok ==> old(self).position() <= final(self).position(),
        decreases old(self).toks().len() - old(self).position(),
    {
        proof {
            use_type_invariant(&*self);
        }
        if self.before("RPAREN") {
            self.consume("COMMA")?;
            let param = self.parse_param()?;
            let mut acc = acc;
            let ghost shown = params_view(acc@);
            acc.push(param);
            proof {
                assert(params_view(acc@) =~= shown.push(param@));
            }
            self.parse_params_more(acc)
        } else {
            Ok(acc)
        }
    }

    /// The parameters of a function, after the opening parenthesis.
    fn parse_params(&mut self) -> (res: Result<Vec<Param>, ParserError>)
        ensures
            final(self).same_tokens(old(self)),
            final(self).toks() == old(self).toks(),
            0 <= final(self).position() <= final(self).toks().len(),
            g_params(old(self).toks(), old(self).position()) == match res {
                Ok(v) => Ok::<(Seq<ParamView>, int), ParseErr>(
                    (params_view(v@), final(self).position()),
                ),
                Err(e) => Err(e@),
            },
            res is Ok ==> old(self).position() <= final(self).position(),
    {
        proof {
            use_type_invariant(&*self);
        }
        if self.before("RPAREN") {
            let param = self.parse_param()?;
            let mut acc: Vec<Param> = Vec::new();
            acc.push(param);
            proof {
                assert(params_view(acc@) =~= seq![param@]);
            }
            self.parse_params_more(acc)
        } else {
            let acc: Vec<Param> = Vec::new();
            proof {
                assert(params_view(acc@) =~= Seq::<ParamView>::empty());
            }
            Ok(acc)
        }
    }

    /// An expression of the lowest level: terms joined by `+` and `-`,
    /// postfix `++` and `--`, and assignment.
    pub fn parse_expr(&mut self) -> (res: Result<AstNode, ParserError>)
        ensures
            final(self).same_tokens(old(self)),
            final(self).toks() == old(self).toks(),
            0 <= final(self).position() <= final(self).toks().len(),
            g_expr(old(self).toks(), old(self).position()) == node_outcome(
                res,
                final(self).position(),
            ),
            res is Ok ==> old(self).position() < final(self).position()
                <= final(self).toks().len(),
        decreases old(self).toks().len() - old(self).position(), 9int,
    {
        proof {
            use_type_invariant(&*self);
        }
        let node = self.parse_term()?;
        self.parse_expr_rest(node)
    }

    /// What follows the first term of an expression.
    fn parse_expr_rest(&mut self, node: AstNode) -> (res: Result<AstNode, ParserError>)
        requires
            old(self).pos <= old(self).tokens.len(),
        ensures
            final(self).same_tokens(old(self)),
            final(self).toks() == old(self).toks(),
            0 <= final(self).position() <= final(self).toks().len(),
            g_expr_rest(old(self).toks(), old(self).position(), node@) == node_outcome(
                res,
                final(self).position(),
            ),
            res is Ok ==> old(self).position() <= final(self).position()
                <= final(self).toks().len(),
        decreases old(self).toks().len() - old(self).position(), 0int,
    {
        proof {
            use_type_invariant(&*self);
        }
        if self.at("OP") {
            let op = self.tokens[self.pos].1.clone();
            if additive(op.as_str()) {
                self.skip();
                let right = self.parse_term()?;
                return self.parse_expr_rest(
                    AstNode::binary(op, node, right),
                );
            } else if step_op(op.as_str()) {
                self.skip();
                return self.parse_expr_rest(AstNode::postfix(op, node));
            }
        }
        if self.at("ASSIGN") {
            self.skip();
            let right = self.parse_expr()?;
            return self.parse_expr_rest(
                AstNode::assign(node, right),
            );
        }
        Ok(node)
    }

    /// A term: comparisons joined by `*` and `/`.
    pub fn parse_term(&mut self) -> (res: Result<AstNode, ParserError>)
        ensures
            final(self).same_tokens(old(self)),
            final(self).toks() == old(self).toks(),
            0 <= final(self).position() <= final(self).toks().len(),
            g_term(old(self).toks(), old(self).position()) == node_outcome(
                res,
                final(self).position(),
            ),
            res is Ok ==> old(self).position() < final(self).position()
                <= final(self).toks().len(),
        decreases old(self).toks().len() - old(self).position(), 8int,
    {
        proof {
            use_type_invariant(&*self);
        }
        let node = self.parse_comparison()?;
        self.parse_term_rest(node)
    }

    /// What follows the first comparison of a term.
    fn parse_term_rest(&mut self, node: AstNode) -> (res: Result<AstNode, ParserError>)
        requires
            old(self).pos <= old(self).tokens.len(),
        ensures
            final(self).same_tokens(old(self)),
            final(self).toks() == old(self).toks(),
            0 <= final(self).position() <= final(self).toks().len(),
            g_term_rest(old(self).toks(), old(self).position(), node@) == node_outcome(
                res,
                final(self).position(),
            ),
            res is Ok ==> old(self).position() <= final(self).position()
                <= final(self).toks().len(),
        decreases old(self).toks().len() - old(self).position(), 0int,
    {
        proof {
            use_type_invariant(&*self);
        }
        if self.at("OP") {
            let op = self.tokens[self.pos].1.clone();
            if multiplicative(op.as_str()) {
                self.skip();
                let right = self.parse_comparison()?;
                return self.parse_term_rest(
                    AstNode::binary(op, node, right),
                );
            }
        }
        Ok(node)
    }

    /// A comparison: factors joined by comparison and logical operators.
    pub fn parse_comparison(&mut self) -> (res: Result<AstNode, ParserError>)
        ensures
            final(self).same_tokens(old(self)),
            final(self).toks() == old(self).toks(),
            0 <= final(self).position() <= final(self).toks().len(),
            g_comparison(old(self).toks(), old(self).position()) == node_outcome(
                res,
                final(self).position(),
            ),
            res is Ok ==> old(self).position() < final(self).position()
                <= final(self).toks().len(),
        decreases old(self).toks().len() - old(self).position(), 7int,
    {
        proof {
            use_type_invariant(&*self);
        }
        let node = self.parse_factor()?;
        self.parse_comparison_rest(node)
    }

    /// What follows the first factor of a comparison.
    fn parse_comparison_rest(&mut self, node: AstNode) -> (res: Result<AstNode, ParserError>)
        requires
            old(self).pos <= old(self).tokens.len(),
        ensures
            final(self).same_tokens(old(self)),
            final(self).toks() == old(self).toks(),
            0 <= final(self).position() <= final(self).toks().len(),
            g_comparison_rest(old(self).toks(), old(self).position(), node@) == node_outcome(
                res,
                final(self).position(),
            ),
            res is Ok ==> old(self).position() <= final(self).position()
                <= final(self).toks().len(),
        decreases old(self).toks().len() - old(self).position(), 0int,
    {
        proof {
            use_type_invariant(&*self);
        }
        if self.at("OP") {
            let op = self.tokens[self.pos].1.clone();
            if comparison(op.as_str()) {
                self.skip();
                let right = self.parse_factor()?;
                return self.parse_comparison_rest(
                    AstNode::binary(op, node, right),
                );
            }
        }
        Ok(node)
    }

    /// A factor: a base, and after most bases any run of index and
    /// method-call suffixes.
    pub fn parse_factor(&mut self) -> (res: Result<AstNode, ParserError>)
        ensures
            final(self).same_tokens(old(self)),
            final(self).toks() == old(self).toks(),
            0 <= final(self).position() <= final(self).toks().len(),
            g_factor(old(self).toks(), old(self).position()) == node_outcome(
                res,
                final(self).position(),
            ),
            res is Ok ==> old(self).position() < final(self).position()
                <= final(self).toks().len(),
        decreases old(self).toks().len() - old(self).position(), 6int,
    {
        proof {
            use_type_invariant(&*self);
        }
        let base = self.parse_base()?;
        if base.1 {
            self.parse_suffix(base.0)
        } else {
            Ok(base.0)
        }
    }

    /// The suffixes of a factor: `[index]` and `.method(args)`.
    fn parse_suffix(&mut self, node: AstNode) -> (res: Result<AstNode, ParserError>)
        requires
            old(self).pos <= old(self).tokens.len(),
        ensures
            final(self).same_tokens(old(self)),
            final(self).toks() == old(self).toks(),
            0 <= final(self).position() <= final(self).toks().len(),
            g_suffix(old(self).toks(), old(self).position(), node@) == node_outcome(
                res,
                final(self).position(),
            ),
            res is Ok ==> old(self).position() <= final(self).position()
                <= final(self).toks().len(),
        decreases old(self).toks().len() - old(self).position(), 0int,
    {
        proof {
            use_type_invariant(&*self);
        }
        if self.at("LBRACKET") {
            self.skip();
            let index = self.parse_expr()?;
            self.consume("RBRACKET")?;
            self.parse_suffix(AstNode::index(node, index))
        } else if self.at("DOT") {
            self.skip();
            let method = self.consume("ID")?;
            self.consume("LPAREN")?;
            let args = self.parse_method_args()?;
            self.consume("RPAREN")?;
            self.parse_suffix(AstNode::method_call(node, method, args))
        } else {
            Ok(node)
        }
    }

    /// The arguments of a method call, after the opening parenthesis.
    fn parse_method_args(&mut self) -> (res: Result<Vec<AstNode>, ParserError>)
        requires
            old(self).pos <= old(self).tokens.len(),
        ensures
            final(self).same_tokens(old(self)),
            final(self).toks() == old(self).toks(),
            0 <= final(self).position() <= final(self).toks().len(),
            g_method_args(old(self).toks(), old(self).position()) == nodes_outcome(
                res,
                final(self).position(),
            ),
            res is Ok ==> old(self).position() <= final(self).position()
                <= final(self).toks().len(),
        decreases old(self).toks().len() - old(self).position(), 11int,
    {
        proof {
            use_type_invariant(&*self);
        }
        if self.before("RPAREN") {
            let first = self.parse_expr()?;
            let mut acc: Vec<AstNode> = Vec::new();
            acc.push(first);
            proof {
                lemma_nodes_one(first);
                assert(acc@ =~= seq![first]);
            }
            self.parse_comma_items(acc)
        } else {
            let acc: Vec<AstNode> = Vec::new();
            proof {
                lemma_nodes_none();
                assert(acc@ =~= Seq::<AstNode>::empty());
            }
            Ok(acc)
        }
    }

    /// Further expressions, each after a comma, as long as a comma stands
    /// next.
    fn parse_comma_items(&mut self, acc: Vec<AstNode>) -> (res: Result<Vec<AstNode>, ParserError>)
        requires
            old(self).pos <= old(self).tokens.len(),
        ensures
            final(self).same_tokens(old(self)),
            final(self).toks() == old(self).toks(),
            0 <= final(self).position() <= final(self).toks().len(),
            g_comma_items(old(self).toks(), old(self).position(), nodes_view(acc@))
                == nodes_outcome(res, final(self).position()),
            res is Ok ==> old(self).position() <= final(self).position()
                <= final(self).toks().len(),
        decreases old(self).toks().len() - old(self).position(), 0int,
    {
        proof {
            use_type_invariant(&*self);
        }
        if self.at("COMMA") {
            self.skip();
            let item = self.parse_expr()?;
            let mut acc = acc;
            proof {
                lemma_nodes_push(acc@, item);
            }
            acc.push(item);
            self.parse_comma_items(acc)
        } else {
            Ok(acc)
        }
    }

    /// The arguments of a function call, after the opening parenthesis.
    fn parse_call_args(&mut self, acc: Vec<AstNode>) -> (res: Result<Vec<AstNode>, ParserError>)
        requires
            old(self).pos <= old(self).tokens.len(),
        ensures
            final(self).same_tokens(old(self)),
            final(self).toks() == old(self).toks(),
            0 <= final(self).position() <= final(self).toks().len(),
            g_call_args(old(self).toks(), old(self).position(), nodes_view(acc@)) == nodes_outcome(
                res,
                final(self).position(),
            ),
            res is Ok ==> old(self).position() <= final(self).position()
                <= final(self).toks().len(),
        decreases old(self).toks().len() - old(self).position(), 10int,
    {
        proof {
            use_type_invariant(&*self);
        }
        if self.before("RPAREN") {
            let arg = self.parse_expr()?;
            let mut acc = acc;
            proof {
                lemma_nodes_push(acc@, arg);
            }
            acc.push(arg);
            if self.at("COMMA") {
                self.skip();
            }
            self.parse_call_args(acc)
        } else {
            Ok(acc)
        }
    }

    /// The items of an array literal after the first.
    fn parse_array_more(&mut self, acc: Vec<AstNode>) -> (res: Result<Vec<AstNode>, ParserError>)
        requires
            old(self).pos <= old(self).tokens.len(),
        ensures
            final(self).same_tokens(old(self)),
            final(self).toks() == old(self).toks(),
            0 <= final(self).position() <= final(self).toks().len(),
            g_array_more(old(self).toks(), old(self).position(), nodes_view(acc@))
                == nodes_outcome(res, final(self).position()),
            res is Ok ==> old(self).position() <= final(self).position()
                <= final(self).toks().len(),
        decreases old(self).toks().len() - old(self).position(), 0int,
    {
        proof {
            use_type_invariant(&*self);
        }
        if self.before("RBRACKET") {
            self.consume("COMMA")?;
            let item = self.parse_expr()?;
            let mut acc = acc;
            proof {
                lemma_nodes_push(acc@, item);
            }
            acc.push(item);
            self.parse_array_more(acc)
        } else {
            Ok(acc)
        }
    }

    /// An array literal.
    pub fn parse_array(&mut self) -> (res: Result<AstNode, ParserError>)
        ensures
            final(self).same_tokens(old(self)),
            final(self).toks() == old(self).toks(),
            0 <= final(self).position() <= final(self).toks().len(),
            g_array(old(self).toks(), old(self).position()) == node_outcome(
                res,
                final(self).position(),
            ),
            res is Ok ==> old(self).position() < final(self).position()
                <= final(self).toks().len(),
        decreases old(self).toks().len() - old(self).position(), 4int,
    {
        proof {
            use_type_invariant(&*self);
        }
        self.consume("LBRACKET")?;
        let items = if self.before("RBRACKET") {
            let first = self.parse_expr()?;
            let mut acc: Vec<AstNode> = Vec::new();
            acc.push(first);
            proof {
                lemma_nodes_one(first);
                assert(acc@ =~= seq![first]);
            }
            self.parse_array_more(acc)?
        } else {
            let acc: Vec<AstNode> = Vec::new();
            proof {
                lemma_nodes_none();
                assert(acc@ =~= Seq::<AstNode>::empty());
            }
            acc
        };
        self.consume("RBRACKET")?;
        Ok(AstNode::array(items))
    }

    /// The statements of a block, up to the closing brace or the end.
    fn parse_block_items(&mut self, acc: Vec<AstNode>) -> (res: Result<Vec<AstNode>, ParserError>)
        requires
            old(self).pos <= old(self).tokens.len(),
        ensures
            final(self).same_tokens(old(self)),
            final(self).toks() == old(self).toks(),
            0 <= final(self).position() <= final(self).toks().len(),
            g_block_items(old(self).toks(), old(self).position(), nodes_view(acc@))
                == nodes_outcome(res, final(self).position()),
            res is Ok ==> old(self).position() <= final(self).position()
                <= final(self).toks().len(),
        decreases old(self).toks().len() - old(self).position(), 10int,
    {
        proof {
            use_type_invariant(&*self);
        }
        if self.before("RBRACE") {
            let node = self.parse_expr()?;
            let mut acc = acc;
            proof {
                lemma_nodes_push(acc@, node);
            }
            acc.push(node);
            self.parse_block_items(acc)
        } else {
            Ok(acc)
        }
    }

    /// A block: statements between braces.
    pub fn parse_block(&mut self) -> (res: Result<Vec<AstNode>, ParserError>)
        ensures
            final(self).same_tokens(old(self)),
            final(self).toks() == old(self).toks(),
            0 <= final(self).position() <= final(self).toks().len(),
            g_block(old(self).toks(), old(self).position()) == nodes_outcome(
                res,
                final(self).position(),
            ),
            res is Ok ==> old(self).position() < final(self).position()
                <= final(self).toks().len(),
        decreases old(self).toks().len() - old(self).position(), 11int,
    {
        proof {
            use_type_invariant(&*self);
        }
        self.consume("LBRACE")?;
        let acc: Vec<AstNode> = Vec::new();
        proof {
            lemma_nodes_none();
            assert(acc@ =~= Seq::<AstNode>::empty());
        }
        let nodes = self.parse_block_items(acc)?;
        self.consume("RBRACE")?;
        Ok(nodes)
    }

    /// An `else` and its block, if `else` stands next.
    pub fn parse_optional_else(&mut self) -> (res: Result<Option<Vec<AstNode>>, ParserError>)
        ensures
            final(self).same_tokens(old(self)),
            final(self).toks() == old(self).toks(),
            0 <= final(self).position() <= final(self).toks().len(),
            g_optional_else(old(self).toks(), old(self).position()) == match res {
                Ok(v) => Ok::<(Option<Seq<Ast>>, int), ParseErr>(
                    (opt_nodes_view(v), final(self).position()),
                ),
                Err(e) => Err(e@),
            },
            res is Ok ==> old(self).position() <= final(self).position(),
            res is Ok && old(self).position() <= old(self).toks().len() ==> final(self).position()
                <= final(self).toks().len(),
        decreases old(self).toks().len() - old(self).position(), 12int,
    {
        proof {
            use_type_invariant(&*self);
        }
        if self.at_word("KEYWORD", "else") {
            self.skip();
            let nodes = self.parse_block()?;
            Ok(Some(nodes))
        } else {
            Ok(None)
        }
    }

    /// One expression between parentheses.
    fn parse_one_arg(&mut self) -> (res: Result<AstNode, ParserError>)
        ensures
            final(self).same_tokens(old(self)),
            final(self).toks() == old(self).toks(),
            0 <= final(self).position() <= final(self).toks().len(),
            g_one_arg(old(self).toks(), old(self).position()) == node_outcome(
                res,
                final(self).position(),
            ),
            res is Ok ==> old(self).position() < final(self).position()
                <= final(self).toks().len(),
        decreases old(self).toks().len() - old(self).position(), 10int,
    {
        proof {
            use_type_invariant(&*self);
        }
        self.consume("LPAREN")?;
        let node = self.parse_expr()?;
        self.consume("RPAREN")?;
        Ok(node)
    }

    /// Two expressions between parentheses, with a comma between them.
    fn parse_two_args(&mut self) -> (res: Result<(AstNode, AstNode), ParserError>)
        ensures
            final(self).same_tokens(old(self)),
            final(self).toks() == old(self).toks(),
            0 <= final(self).position() <= final(self).toks().len(),
            g_two_args(old(self).toks(), old(self).position()) == match res {
                Ok(pair) => Ok::<((Ast, Ast), int), ParseErr>(
                    ((pair.0@, pair.1@), final(self).position()),
                ),
                Err(e) => Err(e@),
            },
            res is Ok ==> old(self).position() < final(self).position()
                <= final(self).toks().len(),
        decreases old(self).toks().len() - old(self).position(), 10int,
    {
        proof {
            use_type_invariant(&*self);
        }
        self.consume("LPAREN")?;
        let first = self.parse_expr()?;
        self.consume("COMMA")?;
        let second = self.parse_expr()?;
        self.consume("RPAREN")?;
        Ok((first, second))
    }

    /// A function declaration, after `func`.
    pub fn parse_function(&mut self) -> (res: Result<AstNode, ParserError>)
        ensures
            final(self).same_tokens(old(self)),
            final(self).toks() == old(self).toks(),
            0 <= final(self).position() <= final(self).toks().len(),
            g_function(old(self).toks(), old(self).position()) == node_outcome(
                res,
                final(self).position(),
            ),
            res is Ok ==> old(self).position() < final(self).position()
                <= final(self).toks().len(),
        decreases old(self).toks().len() - old(self).position(), 13int,
    {
        proof {
            use_type_invariant(&*self);
        }
        let name = self.consume("ID")?;
        self.consume("LPAREN")?;
        let params = self.parse_params()?;
        self.consume("RPAREN")?;
        if self.at("ARROW") {
            self.skip();
            self.parse_type()?;
        }
        let body = self.parse_block()?;
        Ok(AstNode::function(name, params, body))
    }

    /// A loop over the items of a value, after `(NAME in`.
    fn parse_for_in(&mut self, var: String) -> (res: Result<AstNode, ParserError>)
        ensures
            final(self).same_tokens(old(self)),
            final(self).toks() == old(self).toks(),
            0 <= final(self).position() <= final(self).toks().len(),
            g_for_in(old(self).toks(), old(self).position(), var@) == node_outcome(
                res,
                final(self).position(),
            ),
            res is Ok ==> old(self).position() < final(self).position()
                <= final(self).toks().len(),
        decreases old(self).toks().len() - old(self).position(), 12int,
    {
        proof {
            use_type_invariant(&*self);
        }
        let iterable = self.parse_expr()?;
        self.consume("RPAREN")?;
        let body = self.parse_block()?;
        Ok(AstNode::for_in(var, iterable, body))
    }

    /// An expression and the comma after it.
    fn parse_expr_comma(&mut self) -> (res: Result<AstNode, ParserError>)
        ensures
            final(self).same_tokens(old(self)),
            final(self).toks() == old(self).toks(),
            0 <= final(self).position() <= final(self).toks().len(),
            g_expr_comma(old(self).toks(), old(self).position()) == node_outcome(
                res,
                final(self).position(),
            ),
            res is Ok ==> old(self).position() < final(self).position()
                <= final(self).toks().len(),
        decreases old(self).toks().len() - old(self).position(), 10int,
    {
        proof {
            use_type_invariant(&*self);
        }
        let node = self.parse_expr()?;
        self.consume("COMMA")?;
        Ok(node)
    }

    /// An expression and the closing parenthesis after it.
    fn parse_one_closed(&mut self) -> (res: Result<AstNode, ParserError>)
        ensures
            final(self).same_tokens(old(self)),
            final(self).toks() == old(self).toks(),
            0 <= final(self).position() <= final(self).toks().len(),
            g_one_closed(old(self).toks(), old(self).position()) == node_outcome(
                res,
                final(self).position(),
            ),
            res is Ok ==> old(self).position() < final(self).position()
                <= final(self).toks().len(),
        decreases old(self).toks().len() - old(self).position(), 10int,
    {
        proof {
            use_type_invariant(&*self);
        }
        let node = self.parse_expr()?;
        self.consume("RPAREN")?;
        Ok(node)
    }

    /// The end of a loop with three expressions in its header.
    fn parse_for_tail(&mut self, init: AstNode, condition: AstNode) -> (res: Result<
        AstNode,
        ParserError,
    >)
        ensures
            final(self).same_tokens(old(self)),
            final(self).toks() == old(self).toks(),
            0 <= final(self).position() <= final(self).toks().len(),
            g_for_tail(old(self).toks(), old(self).position(), init@, condition@) == node_outcome(
                res,
                final(self).position(),
            ),
            res is Ok ==> old(self).position() < final(self).position()
                <= final(self).toks().len(),
        decreases old(self).toks().len() - old(self).position(), 11int,
    {
        proof {
            use_type_invariant(&*self);
        }
        let increment = self.parse_one_closed()?;
        let body = self.parse_block()?;
        Ok(AstNode::for_loop(init, condition, increment, body))
    }

    /// A loop with three expressions in its header, after `(`.
    fn parse_for_three(&mut self) -> (res: Result<AstNode, ParserError>)
        ensures
            final(self).same_tokens(old(self)),
            final(self).toks() == old(self).toks(),
            0 <= final(self).position() <= final(self).toks().len(),
            g_for_three(old(self).toks(), old(self).position()) == node_outcome(
                res,
                final(self).position(),
            ),
            res is Ok ==> old(self).position() < final(self).position()
                <= final(self).toks().len(),
        decreases old(self).toks().len() - old(self).position(), 12int,
    {
        proof {
            use_type_invariant(&*self);
        }
        let init = self.parse_expr_comma()?;
        let condition = self.parse_expr_comma()?;
        self.parse_for_tail(init, condition)
    }

    /// A loop header and body, after `for`.
    pub fn parse_for(&mut self) -> (res: Result<AstNode, ParserError>)
        ensures
            final(self).same_tokens(old(self)),
            final(self).toks() == old(self).toks(),
            0 <= final(self).position() <= final(self).toks().len(),
            g_for(old(self).toks(), old(self).position()) == node_outcome(
                res,
                final(self).position(),
            ),
            res is Ok ==> old(self).position() < final(self).position()
                <= final(self).toks().len(),
        decreases old(self).toks().len() - old(self).position(), 13int,
    {
        proof {
            use_type_invariant(&*self);
        }
        self.consume("LPAREN")?;
        if self.at("ID") {
            let var = self.tokens[self.pos].1.clone();
            self.skip();
            if self.at_word("KEYWORD", "in") {
                self.skip();
                return self.parse_for_in(var);
            }
            self.pos = self.pos - 1;
        }
        self.parse_for_three()
    }

    /// A conversion, after `to`.
    pub fn parse_to(&mut self) -> (res: Result<AstNode, ParserError>)
        ensures
            final(self).same_tokens(old(self)),
            final(self).toks() == old(self).toks(),
            0 <= final(self).position() <= final(self).toks().len(),
            g_to(old(self).toks(), old(self).position()) == node_outcome(
                res,
                final(self).position(),
            ),
            res is Ok ==> old(self).position() < final(self).position()
                <= final(self).toks().len(),
        decreases old(self).toks().len() - old(self).position(), 13int,
    {
        proof {
            use_type_invariant(&*self);
        }
        self.consume("LPAREN")?;
        let types = self.parse_type()?;
        self.consume("COMMA")?;
        let expr = self.parse_expr()?;
        self.consume("RPAREN")?;
        Ok(AstNode::convert(types, expr))
    }

    /// A declaration, after `let`.
    fn parse_let(&mut self) -> (res: Result<AstNode, ParserError>)
        ensures
            final(self).same_tokens(old(self)),
            final(self).toks() == old(self).toks(),
            0 <= final(self).position() <= final(self).toks().len(),
            g_let(old(self).toks(), old(self).position()) == node_outcome(
                res,
                final(self).position(),
            ),
            res is Ok ==> old(self).position() < final(self).position()
                <= final(self).toks().len(),
        decreases old(self).toks().len() - old(self).position(), 13int,
    {
        proof {
            use_type_invariant(&*self);
        }
        let name = self.consume("ID")?;
        let mut declared: Option<Type> = None;
        let mut is_const = false;
        if self.at("COLON") {
            self.skip();
            let t = self.parse_type()?;
            declared = Some(t);
            if self.at_word("OP", "&") {
                is_const = true;
                self.skip();
            }
        }
        self.consume("ASSIGN")?;
        let value = self.parse_expr()?;
        let var_type = match declared {
            Some(t) => Some(t),
            None => infer_type(&value),
        };
        match var_type {
            Some(_) => Ok(AstNode::declare(name, is_const, var_type, value)),
            None => Err(
                ParserError::TypeError {
                    expected: "literal".to_owned(),
                    actual: "expression".to_owned(),
                    context: name,
                },
            ),
        }
    }

    /// What `?` makes of the condition before it.
    fn parse_question(&mut self, condition: AstNode) -> (res: Result<AstNode, ParserError>)
        ensures
            final(self).same_tokens(old(self)),
            final(self).toks() == old(self).toks(),
            0 <= final(self).position() <= final(self).toks().len(),
            g_question(old(self).toks(), old(self).position(), condition@) == node_outcome(
                res,
                final(self).position(),
            ),
            res is Ok ==> old(self).position() < final(self).position()
                <= final(self).toks().len(),
        decreases old(self).toks().len() - old(self).position(), 13int,
    {
        proof {
            use_type_invariant(&*self);
        }
        let body = self.parse_block()?;
        let else_body = self.parse_optional_else()?;
        Ok(AstNode::branch(condition, body, else_body))
    }

    /// What starts with a name, after the name.
    fn parse_named(&mut self, name: String) -> (res: Result<(AstNode, bool), ParserError>)
        requires
            old(self).pos <= old(self).tokens.len(),
        ensures
            final(self).same_tokens(old(self)),
            final(self).toks() == old(self).toks(),
            0 <= final(self).position() <= final(self).toks().len(),
            g_named(old(self).toks(), old(self).position(), name@) == match res {
                Ok(pair) => Ok::<((Ast, bool), int), ParseErr>(
                    ((pair.0@, pair.1), final(self).position()),
                ),
                Err(e) => Err(e@),
            },
            res is Ok ==> old(self).position() <= final(self).position()
                <= final(self).toks().len(),
        decreases old(self).toks().len() - old(self).position(), 16int,
    {
        proof {
            use_type_invariant(&*self);
        }
        if self.at("LPAREN") {
            self.skip();
            let acc: Vec<AstNode> = Vec::new();
            proof {
                lemma_nodes_none();
                assert(acc@ =~= Seq::<AstNode>::empty());
            }
            let args = self.parse_call_args(acc)?;
            self.consume("RPAREN")?;
            let call = AstNode::call(name, args);
            if self.at_word("OP", "?") {
                self.skip();
                let node = self.parse_question(call)?;
                Ok((node, false))
            } else {
                Ok((call, false))
            }
        } else if self.at_word("OP", "?") {
            self.skip();
            let node = self.parse_question(AstNode::Identifier(name))?;
            Ok((node, false))
        } else {
            Ok((AstNode::Identifier(name), true))
        }
    }

    /// What a keyword leads, after the keyword.
    fn parse_keyword(&mut self, word: String) -> (res: Result<AstNode, ParserError>)
        requires
            0 < old(self).pos <= old(self).tokens.len(),
        ensures
            final(self).same_tokens(old(self)),
            final(self).toks() == old(self).toks(),
            0 <= final(self).position() <= final(self).toks().len(),
            g_keyword(old(self).toks(), old(self).position(), word@) == node_outcome(
                res,
                final(self).position(),
            ),
            res is Ok ==> old(self).position() <= final(self).position()
                <= final(self).toks().len(),
        decreases old(self).toks().len() - old(self).position(), 15int,
    {
        proof {
            use_type_invariant(&*self);
        }
        let w = word.as_str();
        if text_is(w, "print") {
            let node = self.parse_one_arg()?;
            Ok(AstNode::print(node))
        } else if text_is(w, "let") {
            self.parse_let()
        } else if text_is(w, "import") {
            let path = self.consume("STRING")?;
            Ok(AstNode::Import { path })
        } else if text_is(w, "input") {
            self.consume("LPAREN")?;
            let placeholder = self.consume("STRING")?;
            self.consume("RPAREN")?;
            Ok(AstNode::Input { placeholder })
        } else if text_is(w, "if") {
            let condition = self.parse_one_arg()?;
            self.parse_question(condition)
        } else if text_is(w, "while") {
            let condition = self.parse_one_arg()?;
            let body = self.parse_block()?;
            Ok(AstNode::while_loop(condition, body))
        } else if text_is(w, "for") {
            self.parse_for()
        } else {
            self.parse_keyword_more(word)
        }
    }

    /// What the other keywords lead, after the keyword.
    fn parse_keyword_more(&mut self, word: String) -> (res: Result<AstNode, ParserError>)
        requires
            0 < old(self).pos <= old(self).tokens.len(),
        ensures
            final(self).same_tokens(old(self)),
            final(self).toks() == old(self).toks(),
            0 <= final(self).position() <= final(self).toks().len(),
            g_keyword_more(old(self).toks(), old(self).position(), word@) == node_outcome(
                res,
                final(self).position(),
            ),
            res is Ok ==> old(self).position() <= final(self).position()
                <= final(self).toks().len(),
        decreases old(self).toks().len() - old(self).position(), 14int,
    {
        proof {
            use_type_invariant(&*self);
        }
        let w = word.as_str();
        if text_is(w, "random") {
            let pair = self.parse_two_args()?;
            Ok(AstNode::pair(PairKind::Random, pair.0, pair.1))
        } else if text_is(w, "return") {
            self.parse_return()
        } else if text_is(w, "del") {
            self.parse_delete()
        } else if text_is(w, "func") {
            self.parse_function()
        } else if text_is(w, "to") {
            self.parse_to()
        } else if text_is(w, "type") {
            self.parse_type_func()
        } else if text_is(w, "sleep") {
            let node = self.parse_one_arg()?;
            Ok(AstNode::sleep(node))
        } else if text_is(w, "compile") {
            let pair = self.parse_two_args()?;
            Ok(AstNode::pair(PairKind::Compile, pair.0, pair.1))
        } else if text_is(w, "compile_all") {
            let pair = self.parse_two_args()?;
            Ok(AstNode::pair(PairKind::CompileAll, pair.0, pair.1))
        } else {
            Err(
                ParserError::UnexpectedToken {
                    token_type: "KEYWORD".to_owned(),
                    token_value: word,
                    pos: self.pos - 1,
                },
            )
        }
    }

    /// The value to return, after `return`.
    pub fn parse_return(&mut self) -> (res: Result<AstNode, ParserError>)
        ensures
            final(self).same_tokens(old(self)),
            final(self).toks() == old(self).toks(),
            0 <= final(self).position() <= final(self).toks().len(),
            match res {
                Ok(n) => n@ is Return && g_expr(old(self).toks(), old(self).position()) == Ok::<
                    (Ast, int),
                    ParseErr,
                >((*n@->Return_0, final(self).position())),
                Err(e) => g_expr(old(self).toks(), old(self).position()) == Err::<
                    (Ast, int),
                    ParseErr,
                >(e@),
            },
            res is Ok ==> old(self).position() < final(self).position()
                <= final(self).toks().len(),
        decreases old(self).toks().len() - old(self).position(), 10int,
    {
        proof {
            use_type_invariant(&*self);
        }
        let node = self.parse_expr()?;
        Ok(AstNode::returning(node))
    }

    /// The operand of `del`, between parentheses.
    pub fn parse_delete(&mut self) -> (res: Result<AstNode, ParserError>)
        ensures
            final(self).same_tokens(old(self)),
            final(self).toks() == old(self).toks(),
            0 <= final(self).position() <= final(self).toks().len(),
            match res {
                Ok(n) => n@ is Delete && g_one_arg(old(self).toks(), old(self).position()) == Ok::<
                    (Ast, int),
                    ParseErr,
                >((*n@->Delete_0, final(self).position())),
                Err(e) => g_one_arg(old(self).toks(), old(self).position()) == Err::<
                    (Ast, int),
                    ParseErr,
                >(e@),
            },
            res is Ok ==> old(self).position() < final(self).position()
                <= final(self).toks().len(),
        decreases old(self).toks().len() - old(self).position(), 11int,
    {
        proof {
            use_type_invariant(&*self);
        }
        let node = self.parse_one_arg()?;
        Ok(AstNode::delete(node))
    }

    /// The operand of `type`, between parentheses.
    pub fn parse_type_func(&mut self) -> (res: Result<AstNode, ParserError>)
        ensures
            final(self).same_tokens(old(self)),
            final(self).toks() == old(self).toks(),
            0 <= final(self).position() <= final(self).toks().len(),
            match res {
                Ok(n) => n@ is TypeFunc && g_one_arg(old(self).toks(), old(self).position())
                    == Ok::<(Ast, int), ParseErr>((*n@->TypeFunc_expr, final(self).position())),
                Err(e) => g_one_arg(old(self).toks(), old(self).position()) == Err::<
                    (Ast, int),
                    ParseErr,
                >(e@),
            },
            res is Ok ==> old(self).position() < final(self).position()
                <= final(self).toks().len(),
        decreases old(self).toks().len() - old(self).position(), 11int,
    {
        proof {
            use_type_invariant(&*self);
        }
        let node = self.parse_one_arg()?;
        Ok(AstNode::type_of(node))
    }

    /// The base of a factor, and whether suffixes may follow it.
    fn parse_base(&mut self) -> (res: Result<(AstNode, bool), ParserError>)
        ensures
            final(self).same_tokens(old(self)),
            final(self).toks() == old(self).toks(),
            0 <= final(self).position() <= final(self).toks().len(),
            g_base(old(self).toks(), old(self).position()) == match res {
                Ok(pair) => Ok::<((Ast, bool), int), ParseErr>(
                    ((pair.0@, pair.1), final(self).position()),
                ),
                Err(e) => Err(e@),
            },
            res is Ok ==> old(self).position() < final(self).position()
                <= final(self).toks().len(),
        decreases old(self).toks().len() - old(self).position(), 5int,
    {
        proof {
            use_type_invariant(&*self);
        }
        if self.pos >= self.tokens.len() {
            return Err(ParserError::UnexpectedEof { pos: self.pos });
        }
        let kind = self.tokens[self.pos].0.clone();
        let word = self.tokens[self.pos].1.clone();
        let k = kind.as_str();
        if text_is(k, "KEYWORD") {
            self.skip();
            let node = self.parse_keyword(word)?;
            Ok((node, true))
        } else if text_is(k, "BOOL") {
            if text_is(word.as_str(), "true") {
                self.skip();
                Ok((AstNode::Boolean(true), true))
            } else if text_is(word.as_str(), "false") {
                self.skip();
                Ok((AstNode::Boolean(false), true))
            } else {
                Err(
                    ParserError::TypeError {
                        expected: "bool".to_owned(),
                        actual: word,
                        context: "literal".to_owned(),
                    },
                )
            }
        } else if text_is(k, "LPAREN") {
            self.skip();
            let node = self.parse_expr()?;
            self.consume("RPAREN")?;
            Ok((node, true))
        } else if text_is(k, "LBRACKET") {
            let node = self.parse_array()?;
            Ok((node, true))
        } else if text_is(k, "STRING") {
            self.skip();
            Ok((AstNode::String(word), true))
        } else if text_is(k, "REGEX") {
            self.skip();
            Ok((AstNode::Regex(word), true))
        } else if text_is(k, "NUMBER") {
            match parse_int(word.as_str()) {
                Some(n) => {
                    self.skip();
                    Ok((AstNode::Number(n), true))
                },
                None => Err(
                    ParserError::TypeError {
                        expected: "int".to_owned(),
                        actual: word,
                        context: "literal".to_owned(),
                    },
                ),
            }
        } else if text_is(k, "FLOAT") {
            if decimal_literal(word.as_str()) {
                self.skip();
                Ok((AstNode::Float(word), true))
            } else {
                Err(
                    ParserError::TypeError {
                        expected: "float".to_owned(),
                        actual: word,
                        context: "literal".to_owned(),
                    },
                )
            }
        } else if text_is(k, "ID") {
            self.skip();
            self.parse_named(word)
        } else {
            Err(ParserError::UnexpectedToken { token_type: kind, token_value: word, pos: self.pos })
        }
    }

    /// Parses the tokens from the current position to their end. On the
    /// first token that does not fit, parsing stops and its diagnostic comes
    /// back alone.
    pub fn parse(&mut self) -> (res: Result<Vec<AstNode>, Vec<ParserError>>)
        ensures
            final(self).same_tokens(old(self)),
            final(self).toks() == old(self).toks(),
            0 <= final(self).position() <= final(self).toks().len(),
            match res {
                Ok(nodes) => g_program(old(self).toks(), old(self).position(), Seq::empty()) == Ok::<
                    Seq<Ast>,
                    ParseErr,
                >(nodes_view(nodes@)) && final(self).position() == final(self).toks().len(),
                Err(errors) => errors.len() == 1 && g_program(
                    old(self).toks(),
                    old(self).position(),
                    Seq::empty(),
                ) == Err::<Seq<Ast>, ParseErr>(errors[0]@),
            },
    {
        proof {
            use_type_invariant(&*self);
        }
        let mut nodes: Vec<AstNode> = Vec::new();
        proof {
            lemma_nodes_none();
            assert(nodes@ =~= Seq::<AstNode>::empty());
        }
        while self.pos < self.tokens.len()
            invariant
                self.tokens == old(self).tokens,
                self.pos <= self.tokens.len(),
                g_program(old(self).toks(), old(self).position(), Seq::empty()) == g_program(
                    self.toks(),
                    self.pos as int,
                    nodes_view(nodes@),
                ),
            decreases self.tokens.len() - self.pos,
        {
                match self.parse_expr() {
                Ok(node) => {
                    proof {
                        lemma_nodes_push(nodes@, node);
                    }
                    nodes.push(node);
                },
                Err(e) => {
                    let mut errors: Vec<ParserError> = Vec::new();
                    errors.push(e);
                    return Err(errors);
                },
            }
        }
        Ok(nodes)
    }
}

} // verus!
