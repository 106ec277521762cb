use lscript::ast::{summary, AstNode, PairKind, Param, Type};
use lscript::lexer::lex;
use lscript::parser::{Parser, ParserError};

fn parse(source: &str) -> Result<Vec<AstNode>, Vec<ParserError>> {
    Parser::new(lex(source).unwrap()).parse()
}

fn one(source: &str) -> AstNode {
    let mut nodes = parse(source).unwrap();
    assert_eq!(nodes.len(), 1);
    nodes.remove(0)
}

fn failure(source: &str) -> ParserError {
    let mut errors = parse(source).unwrap_err();
    assert_eq!(errors.len(), 1);
    errors.remove(0)
}

fn num(n: i64) -> AstNode {
    AstNode::Number(n)
}

fn id(name: &str) -> AstNode {
    AstNode::Identifier(name.to_string())
}

fn bin(op: &str, left: AstNode, right: AstNode) -> AstNode {
    AstNode::binary(op.to_string(), left, right)
}

#[test]
fn parse_empty_program() {
    assert_eq!(parse("").unwrap(), vec![]);
}

#[test]
fn parse_literals() {
    assert_eq!(one("42"), num(42));
    assert_eq!(one("1.50"), AstNode::Float("1.50".to_string()));
    assert_eq!(one("\"hi\""), AstNode::String("hi".to_string()));
    assert_eq!(one("true"), AstNode::Boolean(true));
    assert_eq!(one("false"), AstNode::Boolean(false));
    assert_eq!(one("\\a+\\"), AstNode::Regex("a+".to_string()));
    assert_eq!(one("[]"), AstNode::Array(vec![]));
    assert_eq!(one("[1, x]"), AstNode::Array(vec![num(1), id("x")]));
}

#[test]
fn parse_multiplication_binds_tighter_than_addition() {
    assert_eq!(one("1 + 2 * 3"), bin("+", num(1), bin("*", num(2), num(3))));
    assert_eq!(one("1 * 2 + 3"), bin("+", bin("*", num(1), num(2)), num(3)));
}

#[test]
fn parse_comparison_binds_tighter_than_multiplication() {
    assert_eq!(one("1 * 2 == 3"), bin("*", num(1), bin("==", num(2), num(3))));
    assert_eq!(one("1 + 2 == 3"), bin("+", num(1), bin("==", num(2), num(3))));
}

#[test]
fn parse_operators_group_to_the_left() {
    assert_eq!(one("1 - 2 - 3"), bin("-", bin("-", num(1), num(2)), num(3)));
    assert_eq!(one("8 / 4 / 2"), bin("/", bin("/", num(8), num(4)), num(2)));
    assert_eq!(
        one("a == b && c || d"),
        bin("||", bin("&&", bin("==", id("a"), id("b")), id("c")), id("d"))
    );
}

#[test]
fn parse_parentheses() {
    assert_eq!(one("(1 + 2) * 3"), bin("*", bin("+", num(1), num(2)), num(3)));
}

#[test]
fn parse_assignment_groups_to_the_right() {
    assert_eq!(
        one("a = b = 1"),
        AstNode::assign(id("a"), AstNode::assign(id("b"), num(1)))
    );
    assert_eq!(
        one("a = 1 + 2"),
        AstNode::assign(id("a"), bin("+", num(1), num(2)))
    );
}

#[test]
fn parse_postfix_steps() {
    assert_eq!(one("i++"), AstNode::postfix("++".to_string(), id("i")));
    assert_eq!(one("i--"), AstNode::postfix("--".to_string(), id("i")));
}

#[test]
fn parse_let_with_type() {
    assert_eq!(
        one("let x: int = 2"),
        AstNode::declare("x".to_string(), false, Some(Type::Int), num(2))
    );
}

#[test]
fn parse_let_const() {
    assert_eq!(
        one("let c: int & = 7"),
        AstNode::declare("c".to_string(), true, Some(Type::Int), num(7))
    );
}

#[test]
fn parse_let_infers_the_type_of_a_literal() {
    assert_eq!(
        one("let a = [1]"),
        AstNode::declare("a".to_string(), false, Some(Type::Array), AstNode::Array(vec![num(1)]))
    );
    assert_eq!(
        one("let s = \"x\""),
        AstNode::declare("s".to_string(), false, Some(Type::String), AstNode::String("x".to_string()))
    );
    assert_eq!(one("let n = 1"), AstNode::declare("n".to_string(), false, Some(Type::Int), num(1)));
    assert_eq!(
        one("let b = true"),
        AstNode::declare("b".to_string(), false, Some(Type::Bool), AstNode::Boolean(true))
    );
    assert_eq!(
        one("let f = 1.5"),
        AstNode::declare("f".to_string(), false, Some(Type::Float), AstNode::Float("1.5".to_string()))
    );
}

#[test]
fn parse_let_without_type_needs_a_literal() {
    assert_eq!(
        failure("let x = y"),
        ParserError::TypeError {
            expected: "literal".to_string(),
            actual: "expression".to_string(),
            context: "x".to_string(),
        }
    );
}

#[test]
fn parse_print_and_friends() {
    assert_eq!(one("print(1)"), AstNode::print(num(1)));
    assert_eq!(one("del(x)"), AstNode::delete(id("x")));
    assert_eq!(one("type(x)"), AstNode::type_of(id("x")));
    assert_eq!(one("sleep(10)"), AstNode::sleep(num(10)));
    assert_eq!(one("return 1"), AstNode::returning(num(1)));
    assert_eq!(one("random(1, 6)"), AstNode::pair(PairKind::Random, num(1), num(6)));
    assert_eq!(
        one("compile(s, \\a\\)"),
        AstNode::pair(PairKind::Compile, id("s"), AstNode::Regex("a".to_string()))
    );
    assert_eq!(
        one("compile_all(s, r)"),
        AstNode::pair(PairKind::CompileAll, id("s"), id("r"))
    );
    assert_eq!(one("to(string, 42)"), AstNode::convert(Type::String, num(42)));
    assert_eq!(one("import \"lib\""), AstNode::Import { path: "lib".to_string() });
    assert_eq!(one("input(\"> \")"), AstNode::Input { placeholder: "> ".to_string() });
}

#[test]
fn parse_if_with_and_without_else() {
    assert_eq!(
        one("if (a) { 1 }"),
        AstNode::branch(id("a"), vec![num(1)], None)
    );
    assert_eq!(
        one("if (a) { 1 } else { 2 3 }"),
        AstNode::branch(id("a"), vec![num(1)], Some(vec![num(2), num(3)]))
    );
}

#[test]
fn parse_question_form() {
    assert_eq!(
        one("ok ? { 1 } else { 2 }"),
        AstNode::branch(id("ok"), vec![num(1)], Some(vec![num(2)]))
    );
    assert_eq!(
        one("f(1) ? { 2 }"),
        AstNode::branch(AstNode::call("f".to_string(), vec![num(1)]), vec![num(2)], None)
    );
}

#[test]
fn parse_while() {
    assert_eq!(
        one("while (i < 3) { i++ }"),
        AstNode::while_loop(
            bin("<", id("i"), num(3)),
            vec![AstNode::postfix("++".to_string(), id("i"))]
        )
    );
}

#[test]
fn parse_for_in() {
    assert_eq!(
        one("for (i in 3) { print(i) }"),
        AstNode::for_in("i".to_string(), num(3), vec![AstNode::print(id("i"))])
    );
}

#[test]
fn parse_for_with_three_expressions() {
    assert_eq!(
        one("for (i = 0, i < 3, i++) { }"),
        AstNode::for_loop(
            AstNode::assign(id("i"), num(0)),
            bin("<", id("i"), num(3)),
            AstNode::postfix("++".to_string(), id("i")),
            vec![]
        )
    );
}

#[test]
fn parse_function_declaration() {
    assert_eq!(
        one("func f(n: int, m) -> int { return n }"),
        AstNode::function(
            "f".to_string(),
            vec![
                Param { name: "n".to_string(), param_type: Some(Type::Int) },
                Param { name: "m".to_string(), param_type: None },
            ],
            vec![AstNode::returning(id("n"))]
        )
    );
    assert_eq!(one("func g() { }"), AstNode::function("g".to_string(), vec![], vec![]));
}

#[test]
fn parse_call_arguments() {
    assert_eq!(one("f()"), AstNode::call("f".to_string(), vec![]));
    assert_eq!(one("f(1, 2)"), AstNode::call("f".to_string(), vec![num(1), num(2)]));
    assert_eq!(one("f(1 2,)"), AstNode::call("f".to_string(), vec![num(1), num(2)]));
}

#[test]
fn parse_index_and_method_suffixes() {
    assert_eq!(one("a[0]"), AstNode::index(id("a"), num(0)));
    assert_eq!(
        one("a.push(4)"),
        AstNode::method_call(id("a"), "push".to_string(), vec![num(4)])
    );
    assert_eq!(
        one("a[0].chars()[1]"),
        AstNode::index(
            AstNode::method_call(AstNode::index(id("a"), num(0)), "chars".to_string(), vec![]),
            num(1)
        )
    );
    assert_eq!(
        one("a[0] = 1"),
        AstNode::assign(AstNode::index(id("a"), num(0)), num(1))
    );
}

#[test]
fn parse_no_suffix_after_a_call() {
    assert_eq!(
        parse("f(1) [2]").unwrap(),
        vec![AstNode::call("f".to_string(), vec![num(1)]), AstNode::Array(vec![num(2)])]
    );
}

#[test]
fn parse_several_statements() {
    let nodes = parse("let x: int = 2 let y: int = 3 print(x + y)").unwrap();
    assert_eq!(
        nodes,
        vec![
            AstNode::declare("x".to_string(), false, Some(Type::Int), num(2)),
            AstNode::declare("y".to_string(), false, Some(Type::Int), num(3)),
            AstNode::print(bin("+", id("x"), id("y"))),
        ]
    );
}

#[test]
fn parse_syntax_error() {
    assert_eq!(
        failure("print 1"),
        ParserError::SyntaxError {
            pos: 1,
            expected: "LPAREN".to_string(),
            found: "NUMBER".to_string(),
        }
    );
}

#[test]
fn parse_unexpected_end() {
    assert_eq!(failure("print(1"), ParserError::UnexpectedEof { pos: 3 });
    assert_eq!(failure("1 +"), ParserError::UnexpectedEof { pos: 2 });
    assert_eq!(failure("a.f("), ParserError::UnexpectedEof { pos: 4 });
}

#[test]
fn parse_unexpected_token() {
    assert_eq!(
        failure(") 1"),
        ParserError::UnexpectedToken {
            token_type: "RPAREN".to_string(),
            token_value: ")".to_string(),
            pos: 0,
        }
    );
    assert_eq!(
        failure("1 % 2"),
        ParserError::UnexpectedToken {
            token_type: "OP".to_string(),
            token_value: "%".to_string(),
            pos: 1,
        }
    );
    assert_eq!(
        failure("else"),
        ParserError::UnexpectedToken {
            token_type: "KEYWORD".to_string(),
            token_value: "else".to_string(),
            pos: 0,
        }
    );
}

#[test]
fn parse_number_out_of_range() {
    assert_eq!(
        failure("99999999999999999999"),
        ParserError::TypeError {
            expected: "int".to_string(),
            actual: "99999999999999999999".to_string(),
            context: "literal".to_string(),
        }
    );
    assert_eq!(one("9223372036854775807"), num(i64::MAX));
}

#[test]
fn parse_number_in_other_digits_is_refused() {
    assert_eq!(
        failure("\u{663}"),
        ParserError::TypeError {
            expected: "int".to_string(),
            actual: "\u{663}".to_string(),
            context: "literal".to_string(),
        }
    );
    assert_eq!(
        failure("\u{663}.5"),
        ParserError::TypeError {
            expected: "float".to_string(),
            actual: "\u{663}.5".to_string(),
            context: "literal".to_string(),
        }
    );
}

#[test]
fn parse_hand_made_tokens() {
    let tokens = vec![("TYPES".to_string(), "number".to_string())];
    let mut parser = Parser::new(tokens);
    assert_eq!(
        parser.parse_type(),
        Err(ParserError::TypeError {
            expected: "type".to_string(),
            actual: "number".to_string(),
            context: "type name".to_string(),
        })
    );
    let tokens = vec![("BOOL".to_string(), "maybe".to_string())];
    assert_eq!(
        Parser::new(tokens).parse(),
        Err(vec![ParserError::TypeError {
            expected: "bool".to_string(),
            actual: "maybe".to_string(),
            context: "literal".to_string(),
        }])
    );
}

#[test]
fn parser_steps_through_tokens() {
    let mut parser = Parser::new(lex("x: int +").unwrap());
    assert_eq!(parser.current_token(), Some(&("ID".to_string(), "x".to_string())));
    assert_eq!(parser.peek(), Some(&("ID".to_string(), "x".to_string())));
    assert!(parser.peek_op().is_err());
    assert_eq!(
        parser.parse_param(),
        Ok(Param { name: "x".to_string(), param_type: Some(Type::Int) })
    );
    assert_eq!(parser.peek_op(), Ok("+".to_string()));
    assert_eq!(
        parser.consume("ID"),
        Err(ParserError::SyntaxError {
            pos: 3,
            expected: "ID".to_string(),
            found: "OP".to_string(),
        })
    );
    assert_eq!(parser.consume("OP"), Ok("+".to_string()));
    assert_eq!(parser.current_token(), None);
    assert_eq!(parser.consume("OP"), Err(ParserError::UnexpectedEof { pos: 4 }));
}

#[test]
fn parser_error_messages() {
    assert_eq!(
        ParserError::SyntaxError { pos: 1, expected: "LPAREN".to_string(), found: "NUMBER".to_string() }
            .message(),
        "Syntax error at position 1: expected LPAREN, found NUMBER"
    );
    assert_eq!(
        ParserError::UnexpectedEof { pos: 12 }.message(),
        "Unexpected end of input at position 12"
    );
    assert_eq!(
        ParserError::TypeError {
            expected: "int".to_string(),
            actual: "x".to_string(),
            context: "literal".to_string()
        }
        .message(),
        "Type error: expected int, got x - literal"
    );
    assert_eq!(
        ParserError::NotImplemented {
            function: "parse".to_string(),
            node_info: "no progress".to_string(),
            pos: 0
        }
        .message(),
        "Not implemented: parse - no progress"
    );
    assert_eq!(
        ParserError::UnexpectedToken {
            token_type: "OP".to_string(),
            token_value: "%".to_string(),
            pos: 3
        }
        .message(),
        "Unexpected token: OP = '%' at position 3"
    );
}

#[test]
fn parse_again_what_was_parsed() {
    let first = parse("func f(n: int) { if (n <= 1) { return 1 } return n * f(n - 1) } print(f(5))")
        .unwrap();
    let second = parse(
        "func f(n: int) -> int { if ((n) <= (1)) { return (1) } return (n) * (f((n) - (1))) } print((f(5)))",
    )
    .unwrap();
    assert_eq!(first, second);
}

#[test]
fn summary_of_a_node() {
    assert_eq!(summary(&num(-3)), "Number: -3");
    assert_eq!(summary(&AstNode::String("a".to_string())), "String: a");
    assert_eq!(
        summary(&bin("+", num(1), bin("*", id("x"), num(2)))),
        "binop: +, left: Number: 1, right: binop: *, left: Node, right: Number: 2"
    );
    assert_eq!(summary(&id("x")), "Node");
}

fn tok(kind: &str, word: &str) -> (String, String) {
    (kind.to_string(), word.to_string())
}

#[test]
fn parse_type_moves_only_past_a_type_word() {
    let mut parser = Parser::new(vec![tok("ID", "x"), tok("TYPES", "int")]);
    assert_eq!(
        parser.parse_type(),
        Err(ParserError::SyntaxError {
            pos: 0,
            expected: "TYPES".to_string(),
            found: "ID".to_string(),
        })
    );
    assert_eq!(parser.current_token(), Some(&tok("ID", "x")));

    let mut parser = Parser::new(vec![tok("TYPES", "int"), tok("ID", "x")]);
    assert_eq!(parser.parse_type(), Ok(Type::Int));
    assert_eq!(parser.current_token(), Some(&tok("ID", "x")));

    let mut parser = Parser::new(vec![]);
    assert_eq!(parser.parse_type(), Err(ParserError::UnexpectedEof { pos: 0 }));
    assert_eq!(parser.current_token(), None);
}

#[test]
fn parse_param_moves_only_past_a_parameter() {
    let mut parser = Parser::new(vec![tok("COLON", ":"), tok("ID", "n")]);
    assert!(parser.parse_param().is_err());
    assert_eq!(parser.current_token(), Some(&tok("COLON", ":")));

    let mut parser = Parser::new(vec![tok("ID", "n"), tok("COMMA", ",")]);
    assert_eq!(parser.parse_param(), Ok(Param { name: "n".to_string(), param_type: None }));
    assert_eq!(parser.current_token(), Some(&tok("COMMA", ",")));

    let mut parser = Parser::new(vec![tok("ID", "n")]);
    assert_eq!(parser.parse_param(), Ok(Param { name: "n".to_string(), param_type: None }));
    assert_eq!(parser.current_token(), None);
}

#[test]
fn parse_ends_behind_the_last_token() {
    let mut parser = Parser::new(lex("let x: int = 2 print(x)").unwrap());
    assert_eq!(parser.parse().map(|nodes| nodes.len()), Ok(2));
    assert_eq!(parser.peek(), None);
    assert_eq!(parser.consume("ID"), Err(ParserError::UnexpectedEof { pos: 10 }));
    assert_eq!(parser.parse(), Ok(vec![]));
}
