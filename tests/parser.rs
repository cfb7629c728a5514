use loxcst::lexer::lex;
use loxcst::parser::parse;
use loxcst::parser::Parse;
use loxcst::syntax::Lang;
use loxcst::syntax::SyntaxKind;
use loxcst::syntax::TokenKind;
use loxcst::syntax::ROOT_RAW;
use rowan::GreenNodeData;
use rowan::NodeOrToken;

fn kind_name(raw: rowan::SyntaxKind) -> String {
    assert!(raw.0 <= ROOT_RAW);
    format!("{:?}", Lang::kind_from_raw(raw.0))
}

fn render(node: &GreenNodeData) -> String {
    let parts: Vec<String> = node
        .children()
        .map(|child| match child {
            NodeOrToken::Node(n) => render(n),
            NodeOrToken::Token(t) => format!("{}{:?}", kind_name(t.kind()), t.text()),
        })
        .collect();
    format!("{}[{}]", kind_name(node.kind()), parts.join(", "))
}

fn parse_text(input: &str) -> Parse {
    parse(lex(input))
}

fn leaf_text(node: &GreenNodeData) -> String {
    node.children()
        .map(|child| match child {
            NodeOrToken::Node(n) => leaf_text(n),
            NodeOrToken::Token(t) => t.text().to_string(),
        })
        .collect()
}

#[test]
fn parse_one_plus_two() {
    let p = parse_text("1 + 2");
    assert_eq!(
        render(&p.green_node),
        "Root[Equality[Comparison[Term[Factor[Number\"1\"], Whitespace\" \", Plus\"+\", \
         Whitespace\" \", Factor[Number\"2\"]]]]]"
    );
    assert!(p.errors.is_empty());
}

#[test]
fn parse_unclosed_paren() {
    let p = parse_text("(1");
    assert_eq!(p.errors, vec!["Unexpected EOF".to_string()]);
    assert_eq!(
        render(&p.green_node),
        "Root[Equality[Comparison[Term[Factor[LParen\"(\", \
         Equality[Comparison[Term[Factor[Number\"1\"]]]]]]]]]"
    );
}

#[test]
fn parse_closed_paren() {
    let p = parse_text("(1)");
    assert!(p.errors.is_empty());
    assert_eq!(
        render(&p.green_node),
        "Root[Equality[Comparison[Term[Factor[LParen\"(\", \
         Equality[Comparison[Term[Factor[Number\"1\"]]]], RParen\")\"]]]]]"
    );
}

#[test]
fn parse_trailing_garbage() {
    let p = parse_text("1 ? 2");
    assert_eq!(p.errors, vec!["Expected EOF".to_string()]);
    assert_eq!(
        render(&p.green_node),
        "Root[Equality[Comparison[Term[Factor[Number\"1\"]]]], Whitespace\" \", \
         ErrorUnexpected[ErrorUnexpected\"?\", Whitespace\" \", Number\"2\"]]"
    );
}

#[test]
fn parse_empty_input() {
    let p = parse_text("");
    assert_eq!(p.errors, vec!["Unexpected EOF".to_string()]);
    assert_eq!(render(&p.green_node), "Root[Equality[Comparison[Term[Factor[]]]]]");
}

#[test]
fn parse_true_equals_false() {
    let p = parse_text("true == false");
    assert!(p.errors.is_empty());
    assert_eq!(
        render(&p.green_node),
        "Root[Equality[Comparison[Term[Factor[True\"true\"]]], Whitespace\" \", EqualEqual\"==\", \
         Whitespace\" \", Comparison[Term[Factor[False\"false\"]]]]]"
    );
}

#[test]
fn parse_unexpected_token_in_primary() {
    let p = parse_text("1 + )");
    assert_eq!(p.errors, vec!["Unexpected token".to_string()]);
    assert_eq!(
        render(&p.green_node),
        "Root[Equality[Comparison[Term[Factor[Number\"1\"], Whitespace\" \", Plus\"+\", \
         Whitespace\" \", Factor[ErrorUnexpected[RParen\")\"]]]]]]"
    );
}

#[test]
fn parse_prefix_operators() {
    let p = parse_text("-!nil");
    assert!(p.errors.is_empty());
    assert_eq!(
        render(&p.green_node),
        "Root[Equality[Comparison[Term[Factor[Unary[Minus\"-\", Unary[Bang\"!\", Nil\"nil\"]]]]]]]"
    );
}

#[test]
fn parse_precedence_levels() {
    let p = parse_text("1*2<3");
    assert!(p.errors.is_empty());
    assert_eq!(
        render(&p.green_node),
        "Root[Equality[Comparison[Term[Factor[Number\"1\", Star\"*\", Number\"2\"]], Less\"<\", \
         Term[Factor[Number\"3\"]]]]]"
    );
}

#[test]
fn parse_trailing_newlines_are_accepted() {
    let p = parse_text("\"s\" \n\n");
    assert!(p.errors.is_empty());
    assert_eq!(
        render(&p.green_node),
        "Root[Equality[Comparison[Term[Factor[StringLiteral\"\\\"s\\\"\"]]]], Whitespace\" \", \
         Newline\"\\n\", Newline\"\\n\"]"
    );
}

#[test]
fn parse_spaced_operators_at_every_level() {
    let p = parse_text("1 * 2 < 3 != 4");
    assert!(p.errors.is_empty());
    assert_eq!(
        render(&p.green_node),
        "Root[Equality[Comparison[Term[Factor[Number\"1\", Whitespace\" \", Star\"*\", \
         Whitespace\" \", Number\"2\"]], Whitespace\" \", Less\"<\", Whitespace\" \", \
         Term[Factor[Number\"3\"]]], Whitespace\" \", BangEqual\"!=\", Whitespace\" \", \
         Comparison[Term[Factor[Number\"4\"]]]]]"
    );
}

#[test]
fn parse_spaced_parentheses() {
    let p = parse_text("( 1 )");
    assert!(p.errors.is_empty());
    assert_eq!(
        render(&p.green_node),
        "Root[Equality[Comparison[Term[Factor[LParen\"(\", Whitespace\" \", \
         Equality[Comparison[Term[Factor[Number\"1\"]]]], Whitespace\" \", RParen\")\"]]]]]"
    );
}

#[test]
fn parse_is_lossless() {
    for input in ["", "1 + 2", "(1", "1 ? 2", "((( -x // c\n", "true == false\n\n", "\"unterminated"] {
        let p = parse_text(input);
        assert_eq!(leaf_text(&p.green_node), input);
        assert_eq!(p.green_node.to_string(), input);
    }
}

#[test]
fn syntax_kinds_round_trip() {
    for raw in 0..=ROOT_RAW {
        assert_eq!(Lang::kind_to_raw(SyntaxKind::from_raw(raw)), raw);
    }
    assert_eq!(SyntaxKind::Root.to_raw(), ROOT_RAW);
    assert_eq!(SyntaxKind::from(TokenKind::Whitespace), SyntaxKind::Whitespace);
    assert_eq!(SyntaxKind::from(TokenKind::ErrorUnterminatedString).to_raw(), 43);
    assert_eq!(SyntaxKind::Unary.to_raw(), 44);
}
