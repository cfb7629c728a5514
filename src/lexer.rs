use vstd::prelude::*;
use crate::syntax::TokenKind;

verus! {

/// What `char::is_alphabetic` says of a char (Unicode's Alphabetic property).
pub uninterp spec fn is_alphabetic_char(c: char) -> bool;

/// What `char::is_numeric` says of a char (Unicode's numeric categories).
pub uninterp spec fn is_numeric_char(c: char) -> bool;

/// A token: its kind and the exact text of the input that it covers.
#[derive(Clone, Debug, PartialEq)]
pub struct Token {
    pub kind: TokenKind,
    pub text: String,
}

impl View for Token {
    type V = (TokenKind, Seq<char>);

    open spec fn view(&self) -> (TokenKind, Seq<char>) {
        (self.kind, self.text@)
    }
}

/// The views of a sequence of tokens.
pub open spec fn tokens_view(ts: Seq<Token>) -> Seq<(TokenKind, Seq<char>)> {
    ts.map_values(|t: Token| t@)
}

/// The texts of a sequence of tokens, joined in order.
pub open spec fn joined(ts: Seq<(TokenKind, Seq<char>)>) -> Seq<char>
    decreases ts.len(),
{
    if ts.len() == 0 {
        Seq::empty()
    } else {
        ts[0].1 + joined(ts.drop_first())
    }
}

pub open spec fn is_blank(c: char) -> bool {
    c == ' ' || c == '\r' || c == '\t'
}

pub open spec fn is_digit_part(c: char) -> bool {
    is_numeric_char(c) || c == '_'
}

pub open spec fn is_ident_start(c: char) -> bool {
    is_alphabetic_char(c) || c == '_'
}

pub open spec fn is_ident_part(c: char) -> bool {
    is_alphabetic_char(c) || is_numeric_char(c) || c == '_'
}

/// End of the run of blanks (space, carriage return, tab) that starts at `i`.
pub open spec fn blank_end(s: Seq<char>, i: int) -> int
    decreases s.len() - i,
{
    if 0 <= i < s.len() && is_blank(s[i]) {
        blank_end(s, i + 1)
    } else {
        i
    }
}

/// Position of the first newline at or after `i`, or the end of `s`.
pub open spec fn line_end(s: Seq<char>, i: int) -> int
    decreases s.len() - i,
{
    if 0 <= i < s.len() && s[i] != '\n' {
        line_end(s, i + 1)
    } else {
        i
    }
}

/// End of the run of numeric chars and underscores that starts at `i`.
pub open spec fn digits_end(s: Seq<char>, i: int) -> int
    decreases s.len() - i,
{
    if 0 <= i < s.len() && is_digit_part(s[i]) {
        digits_end(s, i + 1)
    } else {
        i
    }
}

/// End of the run of identifier chars that starts at `i`.
pub open spec fn ident_end(s: Seq<char>, i: int) -> int
    decreases s.len() - i,
{
    if 0 <= i < s.len() && is_ident_part(s[i]) {
        ident_end(s, i + 1)
    } else {
        i
    }
}

/// Position of the first `"` at or after `i`, or the end of `s`.
pub open spec fn quote_search(s: Seq<char>, i: int) -> int
    decreases s.len() - i,
{
    if 0 <= i < s.len() && s[i] != '"' {
        quote_search(s, i + 1)
    } else {
        i
    }
}

/// First `k >= i` where `s[k - 1]` is `*` and `s[k]` is `/`, or the end of `s`.
pub open spec fn comment_search(s: Seq<char>, i: int) -> int
    decreases s.len() - i,
{
    if 1 <= i < s.len() && !(s[i - 1] == '*' && s[i] == '/') {
        comment_search(s, i + 1)
    } else {
        i
    }
}

/// The kind of an identifier-shaped word: its keyword, if it is one, else
/// `Identifier`. The match is exact and case-sensitive.
pub open spec fn keyword_of(w: Seq<char>) -> TokenKind {
    if w.len() == 3 && w[0] == 'a' && w[1] == 'n' && w[2] == 'd' {
        TokenKind::And
    } else if w.len() == 5 && w[0] == 'c' && w[1] == 'l' && w[2] == 'a' && w[3] == 's' && w[4] == 's' {
        TokenKind::Class
    } else if w.len() == 4 && w[0] == 'e' && w[1] == 'l' && w[2] == 's' && w[3] == 'e' {
        TokenKind::Else
    } else if w.len() == 5 && w[0] == 'f' && w[1] == 'a' && w[2] == 'l' && w[3] == 's' && w[4] == 'e' {
        TokenKind::False
    } else if w.len() == 2 && w[0] == 'f' && w[1] == 'n' {
        TokenKind::Fn
    } else if w.len() == 3 && w[0] == 'f' && w[1] == 'o' && w[2] == 'r' {
        TokenKind::For
    } else if w.len() == 2 && w[0] == 'i' && w[1] == 'f' {
        TokenKind::If
    } else if w.len() == 3 && w[0] == 'n' && w[1] == 'i' && w[2] == 'l' {
        TokenKind::Nil
    } else if w.len() == 2 && w[0] == 'o' && w[1] == 'r' {
        TokenKind::Or
    } else if w.len() == 5 && w[0] == 'p' && w[1] == 'r' && w[2] == 'i' && w[3] == 'n' && w[4] == 't' {
        TokenKind::Print
    } else if w.len() == 6 && w[0] == 'r' && w[1] == 'e' && w[2] == 't' && w[3] == 'u' && w[4] == 'r' && w[5] == 'n' {
        TokenKind::Return
    } else if w.len() == 5 && w[0] == 's' && w[1] == 'u' && w[2] == 'p' && w[3] == 'e' && w[4] == 'r' {
        TokenKind::Super
    } else if w.len() == 4 && w[0] == 't' && w[1] == 'h' && w[2] == 'i' && w[3] == 's' {
        TokenKind::This
    } else if w.len() == 4 && w[0] == 't' && w[1] == 'r' && w[2] == 'u' && w[3] == 'e' {
        TokenKind::True
    } else if w.len() == 3 && w[0] == 'v' && w[1] == 'a' && w[2] == 'r' {
        TokenKind::Var
    } else if w.len() == 5 && w[0] == 'w' && w[1] == 'h' && w[2] == 'i' && w[3] == 'l' && w[4] == 'e' {
        TokenKind::While
    } else {
        TokenKind::Identifier
    }
}
/// The single-character punctuation tokens.
pub open spec fn punctuation(c: char) -> Option<TokenKind> {
    if c == '(' {
        Some(TokenKind::LParen)
    } else if c == ')' {
        Some(TokenKind::RParen)
    } else if c == '{' {
        Some(TokenKind::LBrac)
    } else if c == '}' {
        Some(TokenKind::RBrac)
    } else if c == ',' {
        Some(TokenKind::Comma)
    } else if c == '.' {
        Some(TokenKind::Dot)
    } else if c == '-' {
        Some(TokenKind::Minus)
    } else if c == '+' {
        Some(TokenKind::Plus)
    } else if c == ';' {
        Some(TokenKind::Semicolon)
    } else if c == '*' {
        Some(TokenKind::Star)
    } else if c == '\n' {
        Some(TokenKind::Newline)
    } else {
        None
    }
}

/// The operators that are one char, or two when an `=` follows: the short
/// kind and the long kind.
pub open spec fn operator(c: char) -> Option<(TokenKind, TokenKind)> {
    if c == '!' {
        Some((TokenKind::Bang, TokenKind::BangEqual))
    } else if c == '=' {
        Some((TokenKind::Equal, TokenKind::EqualEqual))
    } else if c == '<' {
        Some((TokenKind::Less, TokenKind::LessEqual))
    } else if c == '>' {
        Some((TokenKind::Greater, TokenKind::GreaterEqual))
    } else {
        None
    }
}

/// The longest valid token that starts at `i`: its kind and where it ends;
/// `None` where no valid token starts there.
pub open spec fn valid_at(s: Seq<char>, i: int) -> Option<(TokenKind, int)> {
    if !(0 <= i < s.len()) {
        None
    } else {
        let c = s[i];
        let next_eq = i + 1 < s.len() && s[i + 1] == '=';
        if punctuation(c) is Some {
            Some((punctuation(c)->0, i + 1))
        } else if operator(c) is Some {
            let (short, long) = operator(c)->0;
            if next_eq {
                Some((long, i + 2))
            } else {
                Some((short, i + 1))
            }
        } else if c == '/' {
            if i + 1 < s.len() && s[i + 1] == '/' {
                Some((TokenKind::LineComment, line_end(s, i + 2)))
            } else if i + 1 < s.len() && s[i + 1] == '*' {
                // The closing `*/` starts after the opening `/*`. A block
                // comment with no closing `*/` runs to the end of the input and
                // is not reported as an error, unlike an unterminated string;
                // whether it should be is an open question of the language.
                let k = comment_search(s, i + 3);
                Some((TokenKind::BlockComment, if k < s.len() { k + 1 } else { s.len() as int }))
            } else {
                Some((TokenKind::Slash, i + 1))
            }
        } else if is_blank(c) {
            Some((TokenKind::Whitespace, blank_end(s, i + 1)))
        } else if c == '"' {
            let q = quote_search(s, i + 1);
            if q < s.len() {
                Some((TokenKind::StringLiteral, q + 1))
            } else {
                Some((TokenKind::ErrorUnterminatedString, q))
            }
        } else if is_numeric_char(c) {
            let j = digits_end(s, i + 1);
            if j + 1 < s.len() && s[j] == '.' && is_numeric_char(s[j + 1]) {
                Some((TokenKind::Number, digits_end(s, j + 1)))
            } else {
                Some((TokenKind::Number, j))
            }
        } else if is_ident_start(c) {
            let e = ident_end(s, i + 1);
            Some((keyword_of(s.subrange(i, e)), e))
        } else {
            None
        }
    }
}

/// The first position at or after `j` where a valid token starts, or the end
/// of `s`.
pub open spec fn invalid_search(s: Seq<char>, j: int) -> int
    decreases s.len() - j,
{
    if 0 <= j < s.len() && valid_at(s, j) is None {
        invalid_search(s, j + 1)
    } else {
        j
    }
}

/// The token that starts at `i`: the valid one, or else an `ErrorUnexpected`
/// that runs up to the next place where a valid token starts.
pub open spec fn next_at(s: Seq<char>, i: int) -> (TokenKind, int) {
    match valid_at(s, i) {
        Some(p) => p,
        None => (TokenKind::ErrorUnexpected, invalid_search(s, i + 1)),
    }
}

/// The tokens of `s` from position `i` on.
pub open spec fn lex_from(s: Seq<char>, i: int) -> Seq<(TokenKind, Seq<char>)>
    decreases s.len() - i,
{
    if 0 <= i < s.len() {
        let e = next_at(s, i).1;
        if i < e <= s.len() {
            seq![(next_at(s, i).0, s.subrange(i, e))] + lex_from(s, e)
        } else {
            Seq::empty()
        }
    } else {
        Seq::empty()
    }
}

/// The tokens of `s`.
pub open spec fn lex_spec(s: Seq<char>) -> Seq<(TokenKind, Seq<char>)> {
    lex_from(s, 0)
}

proof fn lemma_blank_end_bounds(s: Seq<char>, i: int)
    requires
        0 <= i <= s.len(),
    ensures
        i <= blank_end(s, i) <= s.len(),
    decreases s.len() - i,
{
    if i < s.len() && is_blank(s[i]) {
        lemma_blank_end_bounds(s, i + 1);
    }
}

proof fn lemma_line_end_bounds(s: Seq<char>, i: int)
    requires
        0 <= i <= s.len(),
    ensures
        i <= line_end(s, i) <= s.len(),
    decreases s.len() - i,
{
    if i < s.len() && s[i] != '\n' {
        lemma_line_end_bounds(s, i + 1);
    }
}

proof fn lemma_digits_end_bounds(s: Seq<char>, i: int)
    requires
        0 <= i <= s.len(),
    ensures
        i <= digits_end(s, i) <= s.len(),
    decreases s.len() - i,
{
    if i < s.len() && is_digit_part(s[i]) {
        lemma_digits_end_bounds(s, i + 1);
    }
}

proof fn lemma_ident_end_bounds(s: Seq<char>, i: int)
    requires
        0 <= i <= s.len(),
    ensures
        i <= ident_end(s, i) <= s.len(),
    decreases s.len() - i,
{
    if i < s.len() && is_ident_part(s[i]) {
        lemma_ident_end_bounds(s, i + 1);
    }
}

proof fn lemma_quote_search_bounds(s: Seq<char>, i: int)
    requires
        0 <= i <= s.len(),
    ensures
        i <= quote_search(s, i) <= s.len(),
    decreases s.len() - i,
{
    if i < s.len() && s[i] != '"' {
        lemma_quote_search_bounds(s, i + 1);
    }
}

proof fn lemma_comment_search_bounds(s: Seq<char>, i: int)
    requires
        1 <= i <= s.len(),
    ensures
        i <= comment_search(s, i) <= s.len(),
    decreases s.len() - i,
{
    if i < s.len() && !(s[i - 1] == '*' && s[i] == '/') {
        lemma_comment_search_bounds(s, i + 1);
    }
}

proof fn lemma_invalid_search_bounds(s: Seq<char>, j: int)
    requires
        0 <= j <= s.len(),
    ensures
        j <= invalid_search(s, j) <= s.len(),
    decreases s.len() - j,
{
    if j < s.len() && valid_at(s, j) is None {
        lemma_invalid_search_bounds(s, j + 1);
    }
}

/// A valid token that starts at `i` ends after `i` and within `s`.
proof fn lemma_valid_at_bounds(s: Seq<char>, i: int)
    requires
        0 <= i < s.len(),
    ensures
        valid_at(s, i) matches Some((_, e)) ==> i < e <= s.len(),
{
    let c = s[i];
    if i + 2 <= s.len() {
        lemma_line_end_bounds(s, i + 2);
    }
    if i + 3 <= s.len() {
        lemma_comment_search_bounds(s, i + 3);
    }
    lemma_blank_end_bounds(s, i + 1);
    lemma_quote_search_bounds(s, i + 1);
    lemma_digits_end_bounds(s, i + 1);
    lemma_ident_end_bounds(s, i + 1);
    let j = digits_end(s, i + 1);
    if j + 1 < s.len() {
        lemma_digits_end_bounds(s, j + 1);
    }
}

/// Every token, valid or not, takes at least one char and stays within `s`.
pub proof fn lemma_next_at_bounds(s: Seq<char>, i: int)
    requires
        0 <= i < s.len(),
    ensures
        i < next_at(s, i).1 <= s.len(),
{
    lemma_valid_at_bounds(s, i);
    lemma_invalid_search_bounds(s, i + 1);
}

/// Joining the texts of two token sequences joins the two texts.
pub proof fn lemma_joined_append(a: Seq<(TokenKind, Seq<char>)>, b: Seq<(TokenKind, Seq<char>)>)
    ensures
        joined(a + b) == joined(a) + joined(b),
    decreases a.len(),
{
    if a.len() == 0 {
        assert(a + b =~= b);
        assert(joined(a) + joined(b) =~= joined(b));
    } else {
        assert((a + b).drop_first() =~= a.drop_first() + b);
        lemma_joined_append(a.drop_first(), b);
        assert(joined(a) + joined(b) =~= a[0].1 + (joined(a.drop_first()) + joined(b)));
    }
}

/// The tokens from `i` on cover exactly the text from `i` on.
pub proof fn lemma_lex_from_lossless(s: Seq<char>, i: int)
    requires
        0 <= i <= s.len(),
    ensures
        joined(lex_from(s, i)) == s.subrange(i, s.len() as int),
    decreases s.len() - i,
{
    if i < s.len() {
        lemma_next_at_bounds(s, i);
        let e = next_at(s, i).1;
        let head = seq![(next_at(s, i).0, s.subrange(i, e))];
        lemma_lex_from_lossless(s, e);
        lemma_joined_append(head, lex_from(s, e));
        assert(head.drop_first() =~= Seq::<(TokenKind, Seq<char>)>::empty());
        assert(joined(head.drop_first()) == Seq::<char>::empty());
        assert(joined(head) =~= s.subrange(i, e));
        assert(s.subrange(i, e) + s.subrange(e, s.len() as int) =~= s.subrange(i, s.len() as int));
    } else {
        assert(s.subrange(i, s.len() as int) =~= Seq::<char>::empty());
    }
}

/// Lossless lexing: the texts of the tokens of any input, joined in order,
/// are the input.
pub proof fn lemma_lex_lossless(s: Seq<char>)
    ensures
        joined(lex_spec(s)) == s,
{
    lemma_lex_from_lossless(s, 0);
    assert(s.subrange(0, s.len() as int) =~= s);
}

/// Lexing the joined texts of the tokens of any input gives the same tokens,
/// kinds and texts alike.
pub proof fn lemma_relex_same_tokens(s: Seq<char>)
    ensures
        lex_spec(joined(lex_spec(s))) == lex_spec(s),
{
    lemma_lex_lossless(s);
}
/// Relies on char::is_alphabetic: ASCII letters are alphabetic, ASCII
/// digits are not.
#[verifier::external_body]
fn alphabetic(c: char) -> (r: bool)
    ensures
        r == is_alphabetic_char(c),
        ('a' <= c <= 'z' || 'A' <= c <= 'Z') ==> r,
        ('0' <= c <= '9') ==> !r,
{
    c.is_alphabetic()
}

/// Relies on char::is_numeric: ASCII digits are numeric, ASCII letters
/// are not.
#[verifier::external_body]
fn numeric(c: char) -> (r: bool)
    ensures
        r == is_numeric_char(c),
        ('0' <= c <= '9') ==> r,
        ('a' <= c <= 'z' || 'A' <= c <= 'Z') ==> !r,
{
    c.is_numeric()
}

/// Relies on str::chars: the chars of the string, in order.
#[verifier::external_body]
fn chars_of(s: &str) -> (r: Vec<char>)
    ensures
        r@ == s@,
{
    s.chars().collect()
}

/// Relies on String's `FromIterator<&char>`: a string of exactly these chars.
#[verifier::external_body]
fn string_of(cs: &[char]) -> (r: String)
    ensures
        r@ == cs@,
{
    cs.iter().collect()
}

fn blank_scan(cs: &Vec<char>, i: usize) -> (r: usize)
    requires
        i <= cs@.len(),
    ensures
        r as int == blank_end(cs@, i as int),
{
    let mut j: usize = i;
    while j < cs.len() && (cs[j] == ' ' || cs[j] == '\r' || cs[j] == '\t')
        invariant
            i <= j <= cs@.len(),
            blank_end(cs@, j as int) == blank_end(cs@, i as int),
        decreases cs@.len() - j,
    {
        j = j + 1;
    }
    j
}

fn line_scan(cs: &Vec<char>, i: usize) -> (r: usize)
    requires
        i <= cs@.len(),
    ensures
        r as int == line_end(cs@, i as int),
{
    let mut j: usize = i;
    while j < cs.len() && (cs[j] != '\n')
        invariant
            i <= j <= cs@.len(),
            line_end(cs@, j as int) == line_end(cs@, i as int),
        decreases cs@.len() - j,
    {
        j = j + 1;
    }
    j
}

fn digits_scan(cs: &Vec<char>, i: usize) -> (r: usize)
    requires
        i <= cs@.len(),
    ensures
        r as int == digits_end(cs@, i as int),
{
    let mut j: usize = i;
    while j < cs.len() && (numeric(cs[j]) || cs[j] == '_')
        invariant
            i <= j <= cs@.len(),
            digits_end(cs@, j as int) == digits_end(cs@, i as int),
        decreases cs@.len() - j,
    {
        j = j + 1;
    }
    j
}

fn ident_scan(cs: &Vec<char>, i: usize) -> (r: usize)
    requires
        i <= cs@.len(),
    ensures
        r as int == ident_end(cs@, i as int),
{
    let mut j: usize = i;
    while j < cs.len() && (alphabetic(cs[j]) || numeric(cs[j]) || cs[j] == '_')
        invariant
            i <= j <= cs@.len(),
            ident_end(cs@, j as int) == ident_end(cs@, i as int),
        decreases cs@.len() - j,
    {
        j = j + 1;
    }
    j
}

fn quote_scan(cs: &Vec<char>, i: usize) -> (r: usize)
    requires
        i <= cs@.len(),
    ensures
        r as int == quote_search(cs@, i as int),
{
    let mut j: usize = i;
    while j < cs.len() && (cs[j] != '"')
        invariant
            i <= j <= cs@.len(),
            quote_search(cs@, j as int) == quote_search(cs@, i as int),
        decreases cs@.len() - j,
    {
        j = j + 1;
    }
    j
}
fn comment_scan(cs: &Vec<char>, i: usize) -> (r: usize)
    requires
        1 <= i <= cs@.len(),
    ensures
        r as int == comment_search(cs@, i as int),
{
    let mut j: usize = i;
    while j < cs.len() && !(cs[j - 1] == '*' && cs[j] == '/')
        invariant
            1 <= i <= j <= cs@.len(),
            comment_search(cs@, j as int) == comment_search(cs@, i as int),
        decreases cs@.len() - j,
    {
        j = j + 1;
    }
    j
}

/// The kind of the word `cs[start..end]`: its keyword, or `Identifier`.
fn keyword_kind(cs: &Vec<char>, start: usize, end: usize) -> (r: TokenKind)
    requires
        start <= end <= cs@.len(),
    ensures
        r == keyword_of(cs@.subrange(start as int, end as int)),
{
    let n: usize = end - start;
    if n == 3 && cs[start] == 'a' && cs[start + 1] == 'n' && cs[start + 2] == 'd' {
        TokenKind::And
    } else if n == 5 && cs[start] == 'c' && cs[start + 1] == 'l' && cs[start + 2] == 'a' && cs[start + 3] == 's' && cs[start + 4] == 's' {
        TokenKind::Class
    } else if n == 4 && cs[start] == 'e' && cs[start + 1] == 'l' && cs[start + 2] == 's' && cs[start + 3] == 'e' {
        TokenKind::Else
    } else if n == 5 && cs[start] == 'f' && cs[start + 1] == 'a' && cs[start + 2] == 'l' && cs[start + 3] == 's' && cs[start + 4] == 'e' {
        TokenKind::False
    } else if n == 2 && cs[start] == 'f' && cs[start + 1] == 'n' {
        TokenKind::Fn
    } else if n == 3 && cs[start] == 'f' && cs[start + 1] == 'o' && cs[start + 2] == 'r' {
        TokenKind::For
    } else if n == 2 && cs[start] == 'i' && cs[start + 1] == 'f' {
        TokenKind::If
    } else if n == 3 && cs[start] == 'n' && cs[start + 1] == 'i' && cs[start + 2] == 'l' {
        TokenKind::Nil
    } else if n == 2 && cs[start] == 'o' && cs[start + 1] == 'r' {
        TokenKind::Or
    } else if n == 5 && cs[start] == 'p' && cs[start + 1] == 'r' && cs[start + 2] == 'i' && cs[start + 3] == 'n' && cs[start + 4] == 't' {
        TokenKind::Print
    } else if n == 6 && cs[start] == 'r' && cs[start + 1] == 'e' && cs[start + 2] == 't' && cs[start + 3] == 'u' && cs[start + 4] == 'r' && cs[start + 5] == 'n' {
        TokenKind::Return
    } else if n == 5 && cs[start] == 's' && cs[start + 1] == 'u' && cs[start + 2] == 'p' && cs[start + 3] == 'e' && cs[start + 4] == 'r' {
        TokenKind::Super
    } else if n == 4 && cs[start] == 't' && cs[start + 1] == 'h' && cs[start + 2] == 'i' && cs[start + 3] == 's' {
        TokenKind::This
    } else if n == 4 && cs[start] == 't' && cs[start + 1] == 'r' && cs[start + 2] == 'u' && cs[start + 3] == 'e' {
        TokenKind::True
    } else if n == 3 && cs[start] == 'v' && cs[start + 1] == 'a' && cs[start + 2] == 'r' {
        TokenKind::Var
    } else if n == 5 && cs[start] == 'w' && cs[start + 1] == 'h' && cs[start + 2] == 'i' && cs[start + 3] == 'l' && cs[start + 4] == 'e' {
        TokenKind::While
    } else {
        TokenKind::Identifier
    }
}

fn punctuation_kind(c: char) -> (r: Option<TokenKind>)
    ensures
        r == punctuation(c),
{
    match c {
        '(' => Some(TokenKind::LParen),
        ')' => Some(TokenKind::RParen),
        '{' => Some(TokenKind::LBrac),
        '}' => Some(TokenKind::RBrac),
        ',' => Some(TokenKind::Comma),
        '.' => Some(TokenKind::Dot),
        '-' => Some(TokenKind::Minus),
        '+' => Some(TokenKind::Plus),
        ';' => Some(TokenKind::Semicolon),
        '*' => Some(TokenKind::Star),
        '\n' => Some(TokenKind::Newline),
        _ => None,
    }
}

fn operator_kinds(c: char) -> (r: Option<(TokenKind, TokenKind)>)
    ensures
        r == operator(c),
{
    match c {
        '!' => Some((TokenKind::Bang, TokenKind::BangEqual)),
        '=' => Some((TokenKind::Equal, TokenKind::EqualEqual)),
        '<' => Some((TokenKind::Less, TokenKind::LessEqual)),
        '>' => Some((TokenKind::Greater, TokenKind::GreaterEqual)),
        _ => None,
    }
}

/// The end position of a kind and end, as a spec value.
pub open spec fn end_view(r: Option<(TokenKind, usize)>) -> Option<(TokenKind, int)> {
    match r {
        Some((k, e)) => Some((k, e as int)),
        None => None,
    }
}

/// The kind and end of the valid token that starts at `i`, if one does.
fn valid_end(cs: &Vec<char>, i: usize) -> (r: Option<(TokenKind, usize)>)
    requires
        i < cs@.len(),
    ensures
        end_view(r) == valid_at(cs@, i as int),
{
    let n = cs.len();
    let c = cs[i];
    if let Some(k) = punctuation_kind(c) {
        return Some((k, i + 1));
    }
    if let Some((short, long)) = operator_kinds(c) {
        if i + 1 < n && cs[i + 1] == '=' {
            return Some((long, i + 2));
        }
        return Some((short, i + 1));
    }
    if c == '/' {
        if i + 1 < n && cs[i + 1] == '/' {
            return Some((TokenKind::LineComment, line_scan(cs, i + 2)));
        }
        if i + 1 < n && cs[i + 1] == '*' {
            if i + 2 >= n {
                return Some((TokenKind::BlockComment, n));
            }
            let k = comment_scan(cs, i + 3);
            proof {
                lemma_comment_search_bounds(cs@, i + 3);
            }
            if k < n {
                return Some((TokenKind::BlockComment, k + 1));
            }
            return Some((TokenKind::BlockComment, n));
        }
        return Some((TokenKind::Slash, i + 1));
    }
    if c == ' ' || c == '\r' || c == '\t' {
        return Some((TokenKind::Whitespace, blank_scan(cs, i + 1)));
    }
    if c == '"' {
        let q = quote_scan(cs, i + 1);
        proof {
            lemma_quote_search_bounds(cs@, i + 1);
        }
        if q < n {
            return Some((TokenKind::StringLiteral, q + 1));
        }
        return Some((TokenKind::ErrorUnterminatedString, q));
    }
    if numeric(c) {
        let j = digits_scan(cs, i + 1);
        proof {
            lemma_digits_end_bounds(cs@, i + 1);
        }
        if j < n && j + 1 < n && cs[j] == '.' && numeric(cs[j + 1]) {
            return Some((TokenKind::Number, digits_scan(cs, j + 1)));
        }
        return Some((TokenKind::Number, j));
    }
    if c == '_' || alphabetic(c) {
        let e = ident_scan(cs, i + 1);
        proof {
            lemma_ident_end_bounds(cs@, i + 1);
        }
        return Some((keyword_kind(cs, i, e), e));
    }
    None
}

/// The token whose text is `cs[start..end]`.
fn make_token(cs: &Vec<char>, kind: TokenKind, start: usize, end: usize) -> (r: Token)
    requires
        start <= end <= cs@.len(),
    ensures
        r@ == (kind, cs@.subrange(start as int, end as int)),
{
    let text = string_of(vstd::slice::slice_subrange(cs.as_slice(), start, end));
    Token { kind, text }
}

/// The valid token that starts at `start` of `chars`, if one does: the
/// longest match of the lexical rules, with its exact text.
pub fn valid_token(chars: &Vec<char>, start: usize) -> (r: Option<Token>)
    requires
        start <= chars@.len(),
    ensures
        match valid_at(chars@, start as int) {
            Some((k, e)) => r matches Some(t) && t@ == (k, chars@.subrange(start as int, e)),
            None => r is None,
        },
{
    if start == chars.len() {
        return None;
    }
    proof {
        lemma_valid_at_bounds(chars@, start as int);
    }
    match valid_end(chars, start) {
        Some((k, e)) => Some(make_token(chars, k, start, e)),
        None => None,
    }
}

/// The end of the run of chars from `start` on where no valid token starts.
fn invalid_end(cs: &Vec<char>, start: usize) -> (r: usize)
    requires
        start < cs@.len(),
    ensures
        r as int == invalid_search(cs@, start + 1),
        start < r <= cs@.len(),
{
    let n = cs.len();
    let mut j: usize = start + 1;
    while j < n && valid_end(cs, j).is_none()
        invariant
            start < j <= cs@.len(),
            n == cs@.len(),
            invalid_search(cs@, j as int) == invalid_search(cs@, start + 1),
        decreases cs@.len() - j,
    {
        j = j + 1;
    }
    j
}

/// An `ErrorUnexpected` token for the run of chars from `start` on that ends
/// where a valid token can start, or at the end. It always holds at least one
/// char.
pub fn invalid_token(chars: &Vec<char>, start: usize) -> (r: Token)
    requires
        start < chars@.len(),
    ensures
        r@ == (TokenKind::ErrorUnexpected, chars@.subrange(start as int, invalid_search(chars@, start + 1))),
        r@.1.len() >= 1,
{
    let e = invalid_end(chars, start);
    make_token(chars, TokenKind::ErrorUnexpected, start, e)
}

/// Splits the input into tokens. Lexing never fails: input that no rule
/// matches becomes `ErrorUnexpected` tokens, and the texts of the tokens,
/// joined in order, are the input exactly.
pub fn lex(input: &str) -> (r: Vec<Token>)
    ensures
        tokens_view(r@) == lex_spec(input@),
        joined(tokens_view(r@)) == input@,
{
    let cs = chars_of(input);
    let mut res: Vec<Token> = Vec::new();
    let mut pos: usize = 0;
    while pos < cs.len()
        invariant
            pos <= cs@.len(),
            cs@ == input@,
            tokens_view(res@) + lex_from(cs@, pos as int) == lex_spec(cs@),
        decreases cs@.len() - pos,
    {
        proof {
            lemma_next_at_bounds(cs@, pos as int);
        }
        let (kind, end) = match valid_end(&cs, pos) {
            Some(p) => p,
            None => (TokenKind::ErrorUnexpected, invalid_end(&cs, pos)),
        };
        let next = make_token(&cs, kind, pos, end);
        let ghost old_res = res@;
        res.push(next);
        proof {
            let e = next_at(cs@, pos as int).1;
            assert(tokens_view(res@) =~= tokens_view(old_res).push(next@));
            assert(lex_from(cs@, pos as int) == seq![next@] + lex_from(cs@, e));
            assert(tokens_view(res@) + lex_from(cs@, e) =~= tokens_view(old_res) + lex_from(cs@, pos as int));
        }
        pos = end;
    }
    proof {
        lemma_lex_lossless(input@);
    }
    res
}

} // verus!
