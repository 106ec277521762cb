use lscript::lexer::{lex, make_token, match_rule, rule, LexerError};

fn pairs(tokens: &[(String, String)]) -> Vec<(&str, &str)> {
    tokens.iter().map(|t| (t.0.as_str(), t.1.as_str())).collect()
}

#[test]
fn lex_declaration() {
    let tokens = lex("let x: int = 2").unwrap();
    assert_eq!(
        pairs(&tokens),
        vec![
            ("KEYWORD", "let"),
            ("ID", "x"),
            ("COLON", ":"),
            ("TYPES", "int"),
            ("ASSIGN", "="),
            ("NUMBER", "2"),
        ]
    );
}

#[test]
fn lex_empty_source_gives_no_tokens() {
    assert_eq!(lex("").unwrap(), Vec::<(String, String)>::new());
    assert_eq!(lex("   \n\t // only a comment").unwrap(), Vec::<(String, String)>::new());
}

#[test]
fn lex_drops_blanks_line_ends_and_comments() {
    let tokens = lex("a // first\n\n  b // second").unwrap();
    assert_eq!(pairs(&tokens), vec![("ID", "a"), ("ID", "b")]);
}

#[test]
fn lex_every_delimiter() {
    let tokens = lex("( ) { } [ ] : , . = ->").unwrap();
    assert_eq!(
        pairs(&tokens),
        vec![
            ("LPAREN", "("),
            ("RPAREN", ")"),
            ("LBRACE", "{"),
            ("RBRACE", "}"),
            ("LBRACKET", "["),
            ("RBRACKET", "]"),
            ("COLON", ":"),
            ("COMMA", ","),
            ("DOT", "."),
            ("ASSIGN", "="),
            ("ARROW", "->"),
        ]
    );
}

#[test]
fn lex_prefers_the_longer_operator() {
    let tokens = lex("++ -- == != <= >= && || ? + - * / < > & %").unwrap();
    let lexemes: Vec<&str> = tokens.iter().map(|t| t.1.as_str()).collect();
    assert_eq!(
        lexemes,
        vec![
            "++", "--", "==", "!=", "<=", ">=", "&&", "||", "?", "+", "-", "*", "/", "<", ">",
            "&", "%"
        ]
    );
    assert!(tokens.iter().all(|t| t.0 == "OP"));
}

#[test]
fn lex_arrow_wins_over_minus() {
    let tokens = lex("a->b - >").unwrap();
    assert_eq!(
        pairs(&tokens),
        vec![("ID", "a"), ("ARROW", "->"), ("ID", "b"), ("OP", "-"), ("OP", ">")]
    );
}

#[test]
fn lex_float_wins_over_number() {
    let tokens = lex("1.5 15 1.").unwrap();
    assert_eq!(
        pairs(&tokens),
        vec![("FLOAT", "1.5"), ("NUMBER", "15"), ("NUMBER", "1"), ("DOT", ".")]
    );
}

#[test]
fn lex_string_loses_its_quotes() {
    let tokens = lex("\"hi there\" \"\"").unwrap();
    assert_eq!(pairs(&tokens), vec![("STRING", "hi there"), ("STRING", "")]);
}

#[test]
fn lex_string_keeps_its_escapes() {
    let tokens = lex("\"a\\nb\\\"c\"").unwrap();
    assert_eq!(pairs(&tokens), vec![("STRING", "a\\nb\\\"c")]);
}

#[test]
fn lex_regex_loses_its_delimiters() {
    let tokens = lex("\\[0-9]+\\").unwrap();
    assert_eq!(pairs(&tokens), vec![("REGEX", "[0-9]+")]);
}

#[test]
fn lex_reserved_words() {
    let tokens = lex("print let import if else while for in random func return del input to type sleep compile compile_all").unwrap();
    assert_eq!(tokens.len(), 18);
    assert!(tokens.iter().all(|t| t.0 == "KEYWORD"));
    let tokens = lex("int float bool string array void").unwrap();
    assert!(tokens.iter().all(|t| t.0 == "TYPES"));
    let tokens = lex("true false").unwrap();
    assert_eq!(pairs(&tokens), vec![("BOOL", "true"), ("BOOL", "false")]);
}

#[test]
fn lex_identifier_beside_keywords() {
    let tokens = lex("printer _x x1 lets").unwrap();
    assert_eq!(
        pairs(&tokens),
        vec![("ID", "printer"), ("ID", "_x"), ("ID", "x1"), ("ID", "lets")]
    );
}

#[test]
fn lex_type_rule_comes_before_identifier_rule() {
    let tokens = lex("interval").unwrap();
    assert_eq!(pairs(&tokens), vec![("TYPES", "int"), ("ID", "erval")]);
}

#[test]
fn lex_reports_unexpected_characters() {
    let errors = lex("a # b ;").unwrap_err();
    assert_eq!(
        errors,
        vec![
            LexerError::UnexpectedCharacter { char: '#', pos: 2 },
            LexerError::UnexpectedCharacter { char: ';', pos: 6 },
        ]
    );
}

#[test]
fn lex_error_position_counts_bytes() {
    let errors = lex("\u{e9}#").unwrap_err();
    assert_eq!(
        errors,
        vec![
            LexerError::UnexpectedCharacter { char: '\u{e9}', pos: 0 },
            LexerError::UnexpectedCharacter { char: '#', pos: 2 },
        ]
    );
}

#[test]
fn lex_unclosed_string_is_reported() {
    let errors = lex("\"abc").unwrap_err();
    assert_eq!(errors[0], LexerError::UnexpectedCharacter { char: '"', pos: 0 });
}

#[test]
fn lex_keeps_every_lexeme_of_the_source() {
    let source = "let a: array = [1, 2]  // list\nprint(a)";
    let tokens = lex(source).unwrap();
    let mut rest = source;
    for (kind, lexeme) in &tokens {
        let at = rest.find(lexeme.as_str()).unwrap();
        let gap = &rest[..at];
        assert!(gap.chars().all(|c| c.is_whitespace()) || gap.trim_start().starts_with("//"));
        assert!(!kind.is_empty());
        rest = &rest[at + lexeme.len()..];
    }
    assert_eq!(rest, "");
}

#[test]
fn rule_list_is_in_order() {
    assert_eq!(rule(0), ("WHITESPACE", "\\s+"));
    assert_eq!(rule(3), ("ARROW", "->"));
    assert_eq!(rule(4).0, "OP");
    assert_eq!(rule(16), ("FLOAT", "\\d+\\.\\d+"));
    assert_eq!(rule(17), ("NUMBER", "\\d+"));
    assert_eq!(rule(21).0, "ID");
}

#[test]
fn match_rule_takes_the_first_rule_that_fits() {
    assert_eq!(match_rule("12.5 rest"), Some((16, "12.5".to_string())));
    assert_eq!(match_rule("  x"), Some((0, "  ".to_string())));
    assert_eq!(match_rule("#"), None);
    assert_eq!(match_rule("x #"), Some((21, "x".to_string())));
}

#[test]
fn make_token_reclassifies_and_strips() {
    assert_eq!(make_token(21, "while".to_string()), ("KEYWORD".to_string(), "while".to_string()));
    assert_eq!(make_token(21, "int".to_string()), ("TYPES".to_string(), "int".to_string()));
    assert_eq!(make_token(21, "true".to_string()), ("BOOL".to_string(), "true".to_string()));
    assert_eq!(make_token(21, "whale".to_string()), ("ID".to_string(), "whale".to_string()));
    assert_eq!(make_token(18, "\"s\"".to_string()), ("STRING".to_string(), "s".to_string()));
    assert_eq!(make_token(19, "\\a\\".to_string()), ("REGEX".to_string(), "a".to_string()));
    assert_eq!(make_token(4, "+".to_string()), ("OP".to_string(), "+".to_string()));
}

#[test]
fn lexer_error_message() {
    assert_eq!(
        LexerError::UnexpectedCharacter { char: '#', pos: 4 }.message(),
        "Unexpected character: # at position 4"
    );
    assert_eq!(
        lex("ab ;").unwrap_err()[0].message(),
        "Unexpected character: ; at position 3"
    );
}
