use loxcst::lexer::invalid_token;
use loxcst::lexer::lex;
use loxcst::lexer::valid_token;
use loxcst::lexer::Token;
use loxcst::syntax::TokenKind;

fn pairs(input: &str) -> Vec<(TokenKind, String)> {
    lex(input).into_iter().map(|t| (t.kind, t.text)).collect()
}

fn tok(kind: TokenKind, text: &str) -> (TokenKind, String) {
    (kind, text.to_string())
}

fn joined(tokens: &[Token]) -> String {
    tokens.iter().map(|t| t.text.as_str()).collect()
}

#[test]
fn lex_one_plus_two() {
    assert_eq!(
        pairs("1 + 2"),
        vec![
            tok(TokenKind::Number, "1"),
            tok(TokenKind::Whitespace, " "),
            tok(TokenKind::Plus, "+"),
            tok(TokenKind::Whitespace, " "),
            tok(TokenKind::Number, "2"),
        ]
    );
}

#[test]
fn lex_unterminated_string() {
    assert_eq!(pairs("\"abc"), vec![tok(TokenKind::ErrorUnterminatedString, "\"abc")]);
}

#[test]
fn lex_terminated_string() {
    assert_eq!(
        pairs("\"ab\"c"),
        vec![tok(TokenKind::StringLiteral, "\"ab\""), tok(TokenKind::Identifier, "c")]
    );
}

#[test]
fn lex_question_mark_is_unexpected() {
    assert_eq!(
        pairs("1 ? 2"),
        vec![
            tok(TokenKind::Number, "1"),
            tok(TokenKind::Whitespace, " "),
            tok(TokenKind::ErrorUnexpected, "?"),
            tok(TokenKind::Whitespace, " "),
            tok(TokenKind::Number, "2"),
        ]
    );
}

#[test]
fn lex_empty_input() {
    assert!(lex("").is_empty());
}

#[test]
fn lex_garbage_run_is_one_token() {
    assert_eq!(
        pairs("@#$x"),
        vec![tok(TokenKind::ErrorUnexpected, "@#$"), tok(TokenKind::Identifier, "x")]
    );
    assert_eq!(pairs("?"), vec![tok(TokenKind::ErrorUnexpected, "?")]);
}

#[test]
fn lex_two_char_operators() {
    assert_eq!(
        pairs("!=!==<=<>=>"),
        vec![
            tok(TokenKind::BangEqual, "!="),
            tok(TokenKind::BangEqual, "!="),
            tok(TokenKind::Equal, "="),
            tok(TokenKind::LessEqual, "<="),
            tok(TokenKind::Less, "<"),
            tok(TokenKind::GreaterEqual, ">="),
            tok(TokenKind::Greater, ">"),
        ]
    );
    assert_eq!(pairs("="), vec![tok(TokenKind::Equal, "=")]);
    assert_eq!(pairs("!x"), vec![tok(TokenKind::Bang, "!"), tok(TokenKind::Identifier, "x")]);
    assert_eq!(pairs("=="), vec![tok(TokenKind::EqualEqual, "==")]);
}

#[test]
fn lex_punctuation() {
    assert_eq!(
        pairs("(){},.-+;*/"),
        vec![
            tok(TokenKind::LParen, "("),
            tok(TokenKind::RParen, ")"),
            tok(TokenKind::LBrac, "{"),
            tok(TokenKind::RBrac, "}"),
            tok(TokenKind::Comma, ","),
            tok(TokenKind::Dot, "."),
            tok(TokenKind::Minus, "-"),
            tok(TokenKind::Plus, "+"),
            tok(TokenKind::Semicolon, ";"),
            tok(TokenKind::Star, "*"),
            tok(TokenKind::Slash, "/"),
        ]
    );
}

#[test]
fn lex_comments() {
    assert_eq!(
        pairs("// hi\nx"),
        vec![
            tok(TokenKind::LineComment, "// hi"),
            tok(TokenKind::Newline, "\n"),
            tok(TokenKind::Identifier, "x"),
        ]
    );
    assert_eq!(
        pairs("/* a * b */+"),
        vec![tok(TokenKind::BlockComment, "/* a * b */"), tok(TokenKind::Plus, "+")]
    );
}

#[test]
fn lex_unterminated_block_comment_takes_the_rest() {
    assert_eq!(pairs("/* open"), vec![tok(TokenKind::BlockComment, "/* open")]);
}

#[test]
fn lex_block_comment_close_follows_the_opener() {
    assert_eq!(pairs("/*/ x */+"), vec![tok(TokenKind::BlockComment, "/*/ x */"), tok(TokenKind::Plus, "+")]);
    assert_eq!(pairs("/*/"), vec![tok(TokenKind::BlockComment, "/*/")]);
    assert_eq!(pairs("/**/x"), vec![tok(TokenKind::BlockComment, "/**/"), tok(TokenKind::Identifier, "x")]);
}

#[test]
fn lex_whitespace_and_newlines() {
    assert_eq!(
        pairs(" \t\r\n\n "),
        vec![
            tok(TokenKind::Whitespace, " \t\r"),
            tok(TokenKind::Newline, "\n"),
            tok(TokenKind::Newline, "\n"),
            tok(TokenKind::Whitespace, " "),
        ]
    );
}

#[test]
fn lex_numbers() {
    assert_eq!(pairs("1_000.5_0"), vec![tok(TokenKind::Number, "1_000.5_0")]);
    assert_eq!(pairs("12.x"), vec![tok(TokenKind::Number, "12"), tok(TokenKind::Dot, "."), tok(TokenKind::Identifier, "x")]);
    assert_eq!(pairs("3."), vec![tok(TokenKind::Number, "3"), tok(TokenKind::Dot, ".")]);
}

#[test]
fn lex_keywords_and_identifiers() {
    let kinds: Vec<TokenKind> = lex("and class else false fn for if nil or print return super this true var while")
        .into_iter()
        .map(|t| t.kind)
        .filter(|k| *k != TokenKind::Whitespace)
        .collect();
    assert_eq!(
        kinds,
        vec![
            TokenKind::And,
            TokenKind::Class,
            TokenKind::Else,
            TokenKind::False,
            TokenKind::Fn,
            TokenKind::For,
            TokenKind::If,
            TokenKind::Nil,
            TokenKind::Or,
            TokenKind::Print,
            TokenKind::Return,
            TokenKind::Super,
            TokenKind::This,
            TokenKind::True,
            TokenKind::Var,
            TokenKind::While,
        ]
    );
    assert_eq!(pairs("True"), vec![tok(TokenKind::Identifier, "True")]);
    assert_eq!(pairs("andy"), vec![tok(TokenKind::Identifier, "andy")]);
    assert_eq!(pairs("_a1"), vec![tok(TokenKind::Identifier, "_a1")]);
}

#[test]
fn lex_unicode_letters_and_digits() {
    assert_eq!(pairs("été"), vec![tok(TokenKind::Identifier, "été")]);
    assert_eq!(pairs("x²"), vec![tok(TokenKind::Identifier, "x²")]);
    assert_eq!(pairs("٣"), vec![tok(TokenKind::Number, "٣")]);
}

#[test]
fn lex_is_lossless() {
    for input in ["", "1 + 2", "\"abc", "(1", "?? ¿x /* c */ // d\n\t\"s\" 4.2 _", "/*", "é²€"] {
        assert_eq!(joined(&lex(input)), input);
    }
}

#[test]
fn relexing_gives_the_same_tokens() {
    for input in ["1 + 2", "a!=b // c\n", "?? 3._x \"q", "/*/ */"] {
        let first = lex(input);
        let again = lex(&joined(&first));
        assert_eq!(first, again);
    }
}

#[test]
fn invalid_token_takes_at_least_one_char() {
    let chars: Vec<char> = "?".chars().collect();
    let t = invalid_token(&chars, 0);
    assert_eq!(t.kind, TokenKind::ErrorUnexpected);
    assert_eq!(t.text, "?");
    let chars: Vec<char> = "a?~1".chars().collect();
    let t = invalid_token(&chars, 1);
    assert_eq!(t.text, "?~");
}

#[test]
fn valid_token_matches_longest() {
    let chars: Vec<char> = "x>=1".chars().collect();
    let t = valid_token(&chars, 1).unwrap();
    assert_eq!(t.kind, TokenKind::GreaterEqual);
    assert_eq!(t.text, ">=");
    assert!(valid_token(&chars, 0).is_some());
    let chars: Vec<char> = "#".chars().collect();
    assert!(valid_token(&chars, 0).is_none());
    let empty: Vec<char> = Vec::new();
    assert!(valid_token(&empty, 0).is_none());
    let chars: Vec<char> = "_x1 ".chars().collect();
    let t = valid_token(&chars, 0).unwrap();
    assert_eq!((t.kind, t.text.as_str()), (TokenKind::Identifier, "_x1"));
}
