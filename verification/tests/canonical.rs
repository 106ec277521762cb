use lscript::ast::AstNode;
use lscript::canonical::{canonical_tokens, render_source, render_tokens, source_of};
use lscript::lexer::lex;
use lscript::parser::{Parser, ParserError};

fn parsed(source: &str) -> Vec<AstNode> {
    Parser::new(lex(source).unwrap()).parse().unwrap()
}

const PROGRAMS: [&str; 12] = [
    "let x: int = 2 let y: int = 3 print(x + y)",
    "let s: string = \"hi\" print(s + \" \" + to(string, 42))",
    "let a: array = [1,2,3] a.push(4) print(a) a[0] = a[1] * 2",
    "func f(n: int) -> int { if (n <= 1) { return 1 } return n * f(n - 1) } print(f(5))",
    "let c: int & = 7 c = 8",
    "for (i in 3) { print(i) }",
    "for (let i: int = 0, i < 3, i++) { print(i) } while (true) { del(x) }",
    "if (x) { y } else { z } x ? { 1 } f(1, 2) ? { 2 } else { 3 }",
    "let m: array = compile(\"a1\", \\[0-9]+\\) print(compile_all(s, r))",
    "import \"lib.l\" let line: string = input(\"> \") sleep(10) print(random(1, 6))",
    "func g(a, b: float, c) { } print(type(1.5)) let e: array = [] g()",
    "x.chars() s.push(1, 2)[0] i-- let t: bool = true let u: float = 2.50",
];

#[test]
fn canonical_source_reads_back_as_the_same_program() {
    for source in PROGRAMS {
        let ast = parsed(source);
        let canon = render_source(&ast);
        assert_eq!(parsed(&canon), ast, "{}", canon);
    }
}

#[test]
fn canonical_tokens_parse_as_the_same_program() {
    for source in PROGRAMS {
        let ast = parsed(source);
        let canon = render_tokens(&ast);
        assert_eq!(Parser::new(canon.clone()).parse().unwrap(), ast);
        assert_eq!(canonical_tokens(lex(source).unwrap()), Ok(canon.clone()));
        assert_eq!(canonical_tokens(canon.clone()), Ok(canon));
    }
}

#[test]
fn canonical_form_puts_operands_between_parentheses() {
    assert_eq!(render_source(&parsed("x + 1")), "( ( x ) + ( 1 ) ) ");
    assert_eq!(render_source(&parsed("print(\"hi\")")), "( print ( ( \"hi\" ) ) ) ");
    assert_eq!(
        render_source(&parsed("let c: int & = 7")),
        "( let c : int & = ( 7 ) ) "
    );
    assert_eq!(
        render_source(&parsed("for (i in 3) { f(i, 2) }")),
        "( for ( i in ( 3 ) ) { ( f ( ( i ) , ( 2 ) ) ) } ) "
    );
    assert_eq!(render_source(&parsed("let x = [1, 2]")), "( let x : array = ( [ ( 1 ) , ( 2 ) ] ) ) ");
    assert_eq!(render_source(&vec![]), "");
    let pairs: Vec<(String, String)> = render_tokens(&parsed("a[0]"));
    let kinds: Vec<&str> = pairs.iter().map(|t| t.0.as_str()).collect();
    assert_eq!(
        kinds,
        vec!["LPAREN", "LPAREN", "ID", "RPAREN", "LBRACKET", "LPAREN", "NUMBER", "RPAREN", "RBRACKET", "RPAREN"]
    );
}

#[test]
fn source_of_restores_the_delimiters() {
    let tokens = vec![
        ("STRING".to_string(), "a b".to_string()),
        ("REGEX".to_string(), "[0-9]+".to_string()),
        ("ID".to_string(), "x".to_string()),
    ];
    assert_eq!(source_of(&tokens), "\"a b\" \\[0-9]+\\ x ");
    assert_eq!(lex(&source_of(&tokens)).unwrap(), tokens);
}

#[test]
fn canonical_tokens_of_what_does_not_parse() {
    assert_eq!(
        canonical_tokens(lex("let = 1").unwrap()),
        Err(vec![ParserError::SyntaxError {
            pos: 1,
            expected: "ID".to_string(),
            found: "ASSIGN".to_string(),
        }])
    );
}
