//! The lexer: an ordered list of token rules, each a regular expression. At
//! every position the first rule that matches there wins.

use crate::pattern::{find_first, leftmost_match, pattern_error};
use crate::text::{char_text, decimal, display_count, text_is};
use vstd::prelude::*;
use vstd::utf8::encode_utf8;

verus! {

/// A character that no token rule accepts. `pos` is the byte offset of the
/// character in the source.
#[derive(Debug, Clone, Copy, PartialEq, Eq, Structural)]
pub enum LexerError {
    UnexpectedCharacter { char: char, pos: usize },
}

/// What a lexer diagnostic says.
pub open spec fn unexpected_text(e: LexerError) -> Seq<char> {
    match e {
        LexerError::UnexpectedCharacter { char, pos } => "Unexpected character: "@ + seq![char]
            + " at position "@ + decimal(pos as int),
    }
}

impl LexerError {
    /// What the diagnostic says.
    pub fn message(&self) -> (r: String)
        ensures
            r@ == unexpected_text(*self),
    {
        match self {
            LexerError::UnexpectedCharacter { char, pos } => {
                let mut out = "Unexpected character: ".to_owned();
                out.append(char_text(*char).as_str());
                out.append(" at position ");
                out.append(display_count(*pos).as_str());
                out
            },
        }
    }
}

/// The number of token rules.
pub const RULE_COUNT: usize = 22;

/// The rules before this one match text that is dropped: blanks, line ends
/// and comments.
pub const FIRST_KEPT_RULE: usize = 3;

/// The rule for string literals.
pub const STRING_RULE: usize = 18;

/// The rule for regex literals.
pub const REGEX_RULE: usize = 19;

/// The rule for identifiers.
pub const ID_RULE: usize = 21;

/// The kind that rule `i` gives its tokens.
pub open spec fn rule_name(i: int) -> Seq<char> {
    if i == 0 {
        "WHITESPACE"@
    } else if i == 1 {
        "NEWLINE"@
    } else if i == 2 {
        "COMMENT"@
    } else if i == 3 {
        "ARROW"@
    } else if i == 4 {
        "OP"@
    } else if i == 5 {
        "ASSIGN"@
    } else if i == 6 {
        "LPAREN"@
    } else if i == 7 {
        "RPAREN"@
    } else if i == 8 {
        "LBRACE"@
    } else if i == 9 {
        "RBRACE"@
    } else if i == 10 {
        "LBRACKET"@
    } else if i == 11 {
        "RBRACKET"@
    } else if i == 12 {
        "COLON"@
    } else if i == 13 {
        "COMMA"@
    } else if i == 14 {
        "DOT"@
    } else if i == 15 {
        "TYPES"@
    } else if i == 16 {
        "FLOAT"@
    } else if i == 17 {
        "NUMBER"@
    } else if i == 18 {
        "STRING"@
    } else if i == 19 {
        "REGEX"@
    } else if i == 20 {
        "BOOL"@
    } else {
        "ID"@
    }
}

/// The regular expression of rule `i`.
pub open spec fn rule_pattern(i: int) -> Seq<char> {
    if i == 0 {
        r"\s+"@
    } else if i == 1 {
        r"\n+"@
    } else if i == 2 {
        r"//.*"@
    } else if i == 3 {
        r"->"@
    } else if i == 4 {
        r"\?|\+\+|--|\+|-|\*|/|!=|==|<=|>=|<|>|&&|&|%|\|\|"@
    } else if i == 5 {
        r"="@
    } else if i == 6 {
        r"\("@
    } else if i == 7 {
        r"\)"@
    } else if i == 8 {
        r"\{"@
    } else if i == 9 {
        r"}"@
    } else if i == 10 {
        r"\["@
    } else if i == 11 {
        r"]"@
    } else if i == 12 {
        r":"@
    } else if i == 13 {
        r","@
    } else if i == 14 {
        r"\."@
    } else if i == 15 {
        r"int|float|bool|string|array|void"@
    } else if i == 16 {
        r"\d+\.\d+"@
    } else if i == 17 {
        r"\d+"@
    } else if i == 18 {
        r#""([^"\\]|\\.|\\\$[^{]|\$\{[^}]*})*""#@
    } else if i == 19 {
        r"\\[^/]+\\"@
    } else if i == 20 {
        r"true|false"@
    } else {
        r"[a-zA-Z_][a-zA-Z0-9_]*"@
    }
}

/// The kind and the regular expression of rule `i`.
pub fn rule(i: usize) -> (r: (&'static str, &'static str))
    ensures
        r.0@ == rule_name(i as int),
        r.1@ == rule_pattern(i as int),
{
    if i == 0 {
        ("WHITESPACE", r"\s+")
    } else if i == 1 {
        ("NEWLINE", r"\n+")
    } else if i == 2 {
        ("COMMENT", r"//.*")
    } else if i == 3 {
        ("ARROW", r"->")
    } else if i == 4 {
        ("OP", r"\?|\+\+|--|\+|-|\*|/|!=|==|<=|>=|<|>|&&|&|%|\|\|")
    } else if i == 5 {
        ("ASSIGN", r"=")
    } else if i == 6 {
        ("LPAREN", r"\(")
    } else if i == 7 {
        ("RPAREN", r"\)")
    } else if i == 8 {
        ("LBRACE", r"\{")
    } else if i == 9 {
        ("RBRACE", r"}")
    } else if i == 10 {
        ("LBRACKET", r"\[")
    } else if i == 11 {
        ("RBRACKET", r"]")
    } else if i == 12 {
        ("COLON", r":")
    } else if i == 13 {
        ("COMMA", r",")
    } else if i == 14 {
        ("DOT", r"\.")
    } else if i == 15 {
        ("TYPES", r"int|float|bool|string|array|void")
    } else if i == 16 {
        ("FLOAT", r"\d+\.\d+")
    } else if i == 17 {
        ("NUMBER", r"\d+")
    } else if i == 18 {
        ("STRING", r#""([^"\\]|\\.|\\\$[^{]|\$\{[^}]*})*""#)
    } else if i == 19 {
        ("REGEX", r"\\[^/]+\\")
    } else if i == 20 {
        ("BOOL", r"true|false")
    } else {
        ("ID", r"[a-zA-Z_][a-zA-Z0-9_]*")
    }
}

/// The names of the types.
pub open spec fn is_type_word(s: Seq<char>) -> bool {
    s == "int"@ || s == "float"@ || s == "bool"@ || s == "string"@ || s == "array"@ || s
        == "void"@
}

/// The two truth values.
pub open spec fn is_bool_word(s: Seq<char>) -> bool {
    s == "true"@ || s == "false"@
}

/// The keywords.
pub open spec fn is_keyword(s: Seq<char>) -> bool {
    s == "print"@ || s == "let"@ || s == "import"@ || s == "if"@ || s == "else"@ || s
        == "while"@ || s == "for"@ || s == "in"@ || s == "random"@ || s == "func"@ || s
        == "return"@ || s == "del"@ || s == "input"@ || s == "to"@ || s == "type"@ || s
        == "sleep"@ || s == "compile"@ || s == "compile_all"@
}

/// The kind of the token that rule `rule` makes of `text`: the rule's own,
/// but an identifier that spells a reserved word gets that word's kind.
pub open spec fn token_kind(rule: int, text: Seq<char>) -> Seq<char> {
    if rule != ID_RULE {
        rule_name(rule)
    } else if is_type_word(text) {
        "TYPES"@
    } else if is_bool_word(text) {
        "BOOL"@
    } else if is_keyword(text) {
        "KEYWORD"@
    } else {
        "ID"@
    }
}

/// The lexeme of the token that rule `rule` makes of `text`: the text, and
/// for a string or regex literal the text between its two delimiters.
pub open spec fn token_lexeme(rule: int, text: Seq<char>) -> Seq<char> {
    if (rule == STRING_RULE || rule == REGEX_RULE) && text.len() >= 2 {
        text.subrange(1, text.len() - 1)
    } else {
        text
    }
}

/// Whether rule `i` matches at the start of `rest`, on at least one character.
pub open spec fn rule_matches(i: int, rest: Seq<char>) -> bool {
    pattern_error(rule_pattern(i)) is None && match leftmost_match(rule_pattern(i), rest) {
        Some(f) => f.0 == 0 && f.2.len() > 0 && f.2.is_prefix_of(rest),
        None => false,
    }
}

/// The first rule from `from` on that matches at the start of `rest`, with
/// the text it matches.
pub open spec fn first_rule(rest: Seq<char>, from: int) -> Option<(int, Seq<char>)>
    decreases RULE_COUNT - from,
{
    if from < 0 || from >= RULE_COUNT {
        None
    } else if rule_matches(from, rest) {
        let found = leftmost_match(rule_pattern(from), rest)->0;
        Some((from, found.2))
    } else {
        first_rule(rest, from + 1)
    }
}

/// A stretch of the source: the text that one rule matched, or one character
/// that no rule accepts (`rule` is `None`). `start` counts characters.
pub ghost struct Piece {
    pub start: int,
    pub rule: Option<int>,
    pub text: Seq<char>,
}

/// The piece that starts at character `pos` of `code`.
pub open spec fn piece_at(code: Seq<char>, pos: int) -> Piece
    recommends
        0 <= pos < code.len(),
{
    match first_rule(code.subrange(pos, code.len() as int), 0) {
        Some((i, m)) => Piece { start: pos, rule: Some(i), text: m },
        None => Piece { start: pos, rule: None, text: seq![code[pos]] },
    }
}

/// The pieces of `code` from character `pos` to its end, in order.
pub open spec fn scan(code: Seq<char>, pos: int) -> Seq<Piece>
    decreases code.len() - pos,
{
    if pos < 0 || pos >= code.len() {
        Seq::empty()
    } else {
        let p = piece_at(code, pos);
        let len = p.text.len() as int;
        if 0 < len <= code.len() - pos {
            seq![p] + scan(code, pos + len)
        } else {
            Seq::empty()
        }
    }
}

/// Whether a piece becomes a token.
pub open spec fn is_kept(p: Piece) -> bool {
    p.rule is Some && p.rule->0 >= FIRST_KEPT_RULE
}

/// The tokens that a run of pieces gives, in order.
pub open spec fn tokens_of(pieces: Seq<Piece>) -> Seq<(Seq<char>, Seq<char>)>
    decreases pieces.len(),
{
    if pieces.len() == 0 {
        Seq::empty()
    } else {
        let p = pieces.last();
        let before = tokens_of(pieces.drop_last());
        if is_kept(p) {
            before.push((token_kind(p.rule->0, p.text), token_lexeme(p.rule->0, p.text)))
        } else {
            before
        }
    }
}

/// The byte offset of character `pos` of `code`.
pub open spec fn byte_offset(code: Seq<char>, pos: int) -> nat {
    encode_utf8(code.subrange(0, pos)).len()
}

/// The diagnostics that a run of pieces of `code` gives, in order.
pub open spec fn errors_of(code: Seq<char>, pieces: Seq<Piece>) -> Seq<LexerError>
    decreases pieces.len(),
{
    if pieces.len() == 0 {
        Seq::empty()
    } else {
        let p = pieces.last();
        let before = errors_of(code, pieces.drop_last());
        if p.rule is None {
            before.push(
                LexerError::UnexpectedCharacter {
                    char: p.text[0],
                    pos: byte_offset(code, p.start) as usize,
                },
            )
        } else {
            before
        }
    }
}

/// The texts of a run of pieces, joined.
pub open spec fn joined(pieces: Seq<Piece>) -> Seq<char>
    decreases pieces.len(),
{
    if pieces.len() == 0 {
        Seq::empty()
    } else {
        pieces[0].text + joined(pieces.drop_first())
    }
}

/// The tokens of `code`.
pub open spec fn lex_tokens(code: Seq<char>) -> Seq<(Seq<char>, Seq<char>)> {
    tokens_of(scan(code, 0))
}

/// The diagnostics of `code`.
pub open spec fn lex_errors(code: Seq<char>) -> Seq<LexerError> {
    errors_of(code, scan(code, 0))
}

/// A list of tokens as contracts see it: pairs of kind and lexeme.
pub open spec fn token_views(v: Seq<(String, String)>) -> Seq<(Seq<char>, Seq<char>)> {
    v.map_values(|t: (String, String)| (t.0@, t.1@))
}

/// The pieces of a source, joined, are the source: nothing is lost between
/// the tokens, the dropped stretches and the characters reported.
pub proof fn lemma_pieces_cover_source(code: Seq<char>, pos: int)
    requires
        0 <= pos <= code.len(),
    ensures
        joined(scan(code, pos)) == code.subrange(pos, code.len() as int),
    decreases code.len() - pos,
{
    let rest = code.subrange(pos, code.len() as int);
    if pos >= code.len() {
        assert(joined(scan(code, pos)) =~= rest);
    } else {
        let p = piece_at(code, pos);
        lemma_first_rule_is_prefix(rest, 0);
        assert(p.text.is_prefix_of(rest)) by {
            if first_rule(rest, 0) is None {
                assert(seq![code[pos]] =~= rest.subrange(0, 1));
            }
        }
        assert(0 < p.text.len() <= rest.len());
        let next = pos + p.text.len();
        lemma_pieces_cover_source(code, next);
        let tail = scan(code, next);
        assert((seq![p] + tail).drop_first() =~= tail);
        assert(joined(scan(code, pos)) == p.text + joined(tail));
        assert(p.text + code.subrange(next, code.len() as int) =~= rest);
    }
}

/// Token preservation. The pieces of a source, joined, are the source: the
/// lexemes of the tokens with their delimiters, the blanks, line ends and
/// comments between them and the characters reported, in order.
pub proof fn lemma_lex_covers_source(code: Seq<char>)
    ensures
        joined(scan(code, 0)) == code,
        lex_tokens(code) == tokens_of(scan(code, 0)),
        lex_errors(code) == errors_of(code, scan(code, 0)),
{
    lemma_pieces_cover_source(code, 0);
    assert(code.subrange(0, code.len() as int) =~= code);
}

/// What `first_rule` finds is a prefix of the text, and not empty.
pub proof fn lemma_first_rule_is_prefix(rest: Seq<char>, from: int)
    ensures
        first_rule(rest, from) matches Some(f) ==> f.1.is_prefix_of(rest) && f.1.len() > 0 && from
            <= f.0 < RULE_COUNT && rule_matches(f.0, rest),
    decreases RULE_COUNT - from,
{
    if from < 0 || from >= RULE_COUNT {
    } else if rule_matches(from, rest) {
    } else {
        lemma_first_rule_is_prefix(rest, from + 1);
    }
}

/// The pieces that become tokens, in order.
pub open spec fn kept_pieces(pieces: Seq<Piece>) -> Seq<Piece> {
    pieces.filter(|p: Piece| is_kept(p))
}

/// Every token is the text of one piece of the source, in the order of the
/// pieces: the tokens are what is left of the pieces when blanks, line ends,
/// comments and unexpected characters are taken out.
pub proof fn lemma_tokens_follow_pieces(pieces: Seq<Piece>)
    ensures
        tokens_of(pieces).len() == kept_pieces(pieces).len(),
        forall|k: int|
            0 <= k < tokens_of(pieces).len() ==> {
                let p = #[trigger] kept_pieces(pieces)[k];
                tokens_of(pieces)[k] == (
                    token_kind(p.rule->0, p.text),
                    token_lexeme(p.rule->0, p.text),
                )
            },
    decreases pieces.len(),
{
    let keep = |p: Piece| is_kept(p);
    reveal(Seq::filter);
    if pieces.len() == 0 {
        assert(pieces.filter(keep) =~= Seq::empty());
    } else {
        lemma_tokens_follow_pieces(pieces.drop_last());
        assert(pieces.filter(keep) == if keep(pieces.last()) {
            pieces.drop_last().filter(keep).push(pieces.last())
        } else {
            pieces.drop_last().filter(keep)
        });
    }
}

/// Whether `s` names a type.
pub fn type_word(s: &str) -> (r: bool)
    ensures
        r == is_type_word(s@),
{
    text_is(s, "int") || text_is(s, "float") || text_is(s, "bool") || text_is(s, "string")
        || text_is(s, "array") || text_is(s, "void")
}

/// Whether `s` is `true` or `false`.
pub fn bool_word(s: &str) -> (r: bool)
    ensures
        r == is_bool_word(s@),
{
    text_is(s, "true") || text_is(s, "false")
}

/// Whether `s` is a keyword.
pub fn keyword(s: &str) -> (r: bool)
    ensures
        r == is_keyword(s@),
{
    text_is(s, "print") || text_is(s, "let") || text_is(s, "import") || text_is(s, "if")
        || text_is(s, "else") || text_is(s, "while") || text_is(s, "for") || text_is(s, "in")
        || text_is(s, "random") || text_is(s, "func") || text_is(s, "return") || text_is(
        s,
        "del",
    ) || text_is(s, "input") || text_is(s, "to") || text_is(s, "type") || text_is(s, "sleep")
        || text_is(s, "compile") || text_is(s, "compile_all")
}

/// The token that rule `i` makes of the text `m` that it matched.
pub fn make_token(i: usize, m: String) -> (t: (String, String))
    requires
        i < RULE_COUNT,
    ensures
        t.0@ == token_kind(i as int, m@),
        t.1@ == token_lexeme(i as int, m@),
{
    let kind: &str = if i != ID_RULE {
        rule(i).0
    } else if type_word(m.as_str()) {
        "TYPES"
    } else if bool_word(m.as_str()) {
        "BOOL"
    } else if keyword(m.as_str()) {
        "KEYWORD"
    } else {
        "ID"
    };
    let len = m.as_str().unicode_len();
    let lexeme = if (i == STRING_RULE || i == REGEX_RULE) && len >= 2 {
        m.as_str().substring_char(1, len - 1).to_owned()
    } else {
        m
    };
    (kind.to_owned(), lexeme)
}

/// The first rule that matches at the start of `rest`, with the text matched.
pub fn match_rule(rest: &str) -> (res: Option<(usize, String)>)
    ensures
        match res {
            Some(f) => first_rule(rest@, 0) == Some((f.0 as int, f.1@)),
            None => first_rule(rest@, 0) is None,
        },
{
    let mut i: usize = 0;
    while i < RULE_COUNT
        invariant
            i <= RULE_COUNT,
            first_rule(rest@, 0) == first_rule(rest@, i as int),
        decreases RULE_COUNT - i,
    {
        let r = rule(i);
        match find_first(r.1, rest) {
            Ok(Some(f)) => {
                if f.0 == 0 && f.2.as_str().unicode_len() > 0 {
                    return Some((i, f.2));
                }
            },
            _ => {},
        }
        i += 1;
    }
    None
}

/// Splits a source into tokens. Blanks, line ends and comments are dropped.
/// A character that no rule accepts is reported and skipped, and the scan
/// goes on: the diagnostics come back together, in place of the tokens.
pub fn lex(code: &str) -> (res: Result<Vec<(String, String)>, Vec<LexerError>>)
    ensures
        match res {
            Ok(tokens) => lex_errors(code@).len() == 0 && token_views(tokens@) == lex_tokens(
                code@,
            ),
            Err(errors) => errors.len() > 0 && errors@ == lex_errors(code@),
        },
{
    let n = code.unicode_len();
    let mut tokens: Vec<(String, String)> = Vec::new();
    let mut errors: Vec<LexerError> = Vec::new();
    let mut pos: usize = 0;
    let ghost mut pieces: Seq<Piece> = Seq::empty();
    proof {
        assert(token_views(tokens@) =~= tokens_of(pieces));
    }
    while pos < n
        invariant
            n == code@.len(),
            pos <= n,
            scan(code@, 0) == pieces + scan(code@, pos as int),
            token_views(tokens@) == tokens_of(pieces),
            errors@ == errors_of(code@, pieces),
        decreases n - pos,
    {
        let rest = code.substring_char(pos, n);
        let ghost piece = piece_at(code@, pos as int);
        let ghost before = pieces;
        proof {
            lemma_first_rule_is_prefix(rest@, 0);
        }
        match match_rule(rest) {
            Some(f) => {
                let len = f.1.as_str().unicode_len();
                if f.0 >= FIRST_KEPT_RULE {
                    let ghost shown = token_views(tokens@);
                    let t = make_token(f.0, f.1);
                    tokens.push(t);
                    proof {
                        assert(token_views(tokens@) =~= shown.push((t.0@, t.1@)));
                    }
                }
                pos = pos + len;
            },
            None => {
                let c = code.get_char(pos);
                let at = code.substring_char(0, pos).len();
                errors.push(LexerError::UnexpectedCharacter { char: c, pos: at });
                pos = pos + 1;
            },
        }
        proof {
            pieces = before.push(piece);
            assert(pieces.drop_last() =~= before);
            assert(before + (seq![piece] + scan(code@, pos as int)) =~= pieces + scan(
                code@,
                pos as int,
            ));
        }
    }
    proof {
        assert(pieces + scan(code@, pos as int) =~= pieces);
    }
    if errors.len() > 0 {
        Err(errors)
    } else {
        Ok(tokens)
    }
}

} // verus!
