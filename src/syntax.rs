use vstd::prelude::*;

verus! {

/// The kinds of token the lexer produces.
#[derive(Clone, Copy, Debug, PartialEq, Eq, Structural)]
pub enum TokenKind {
    // single character
    LParen,
    RParen,
    LBrac,
    RBrac,
    Comma,
    Dot,
    Minus,
    Plus,
    Semicolon,
    Slash,
    Star,
    // one or two characters
    Bang,
    BangEqual,
    Equal,
    EqualEqual,
    Greater,
    GreaterEqual,
    Less,
    LessEqual,
    // literals
    Identifier,
    StringLiteral,
    Number,
    // keywords
    And,
    Class,
    Else,
    False,
    Fn,
    For,
    If,
    Nil,
    Or,
    Print,
    Return,
    Super,
    This,
    True,
    Var,
    While,
    // trivia
    LineComment,
    BlockComment,
    Whitespace,
    Newline,
    // lexical errors
    ErrorUnexpected,
    ErrorUnterminatedString,
}

/// The kinds of element in a syntax tree: every token kind, in the same order,
/// followed by the composite kinds that only the parser produces. `Root` is
/// the largest kind.
#[derive(Clone, Copy, Debug, PartialEq, Eq, PartialOrd, Ord, Hash, Structural)]
pub enum SyntaxKind {
    LParen,
    RParen,
    LBrac,
    RBrac,
    Comma,
    Dot,
    Minus,
    Plus,
    Semicolon,
    Slash,
    Star,
    Bang,
    BangEqual,
    Equal,
    EqualEqual,
    Greater,
    GreaterEqual,
    Less,
    LessEqual,
    Identifier,
    StringLiteral,
    Number,
    And,
    Class,
    Else,
    False,
    Fn,
    For,
    If,
    Nil,
    Or,
    Print,
    Return,
    Super,
    This,
    True,
    Var,
    While,
    LineComment,
    BlockComment,
    Whitespace,
    Newline,
    ErrorUnexpected,
    ErrorUnterminatedString,
    Unary,
    Factor,
    Term,
    Comparison,
    Equality,
    Root,
}

/// The raw number of `SyntaxKind::Root`, the largest kind.
pub const ROOT_RAW: u16 = 49;

/// Position of a token kind in the shared numbering.
pub open spec fn token_ordinal(k: TokenKind) -> nat {
    match k {
        TokenKind::LParen => 0,
        TokenKind::RParen => 1,
        TokenKind::LBrac => 2,
        TokenKind::RBrac => 3,
        TokenKind::Comma => 4,
        TokenKind::Dot => 5,
        TokenKind::Minus => 6,
        TokenKind::Plus => 7,
        TokenKind::Semicolon => 8,
        TokenKind::Slash => 9,
        TokenKind::Star => 10,
        TokenKind::Bang => 11,
        TokenKind::BangEqual => 12,
        TokenKind::Equal => 13,
        TokenKind::EqualEqual => 14,
        TokenKind::Greater => 15,
        TokenKind::GreaterEqual => 16,
        TokenKind::Less => 17,
        TokenKind::LessEqual => 18,
        TokenKind::Identifier => 19,
        TokenKind::StringLiteral => 20,
        TokenKind::Number => 21,
        TokenKind::And => 22,
        TokenKind::Class => 23,
        TokenKind::Else => 24,
        TokenKind::False => 25,
        TokenKind::Fn => 26,
        TokenKind::For => 27,
        TokenKind::If => 28,
        TokenKind::Nil => 29,
        TokenKind::Or => 30,
        TokenKind::Print => 31,
        TokenKind::Return => 32,
        TokenKind::Super => 33,
        TokenKind::This => 34,
        TokenKind::True => 35,
        TokenKind::Var => 36,
        TokenKind::While => 37,
        TokenKind::LineComment => 38,
        TokenKind::BlockComment => 39,
        TokenKind::Whitespace => 40,
        TokenKind::Newline => 41,
        TokenKind::ErrorUnexpected => 42,
        TokenKind::ErrorUnterminatedString => 43,
    }
}

/// Position of a syntax kind in the shared numbering.
pub open spec fn syntax_ordinal(k: SyntaxKind) -> nat {
    match k {
        SyntaxKind::LParen => 0,
        SyntaxKind::RParen => 1,
        SyntaxKind::LBrac => 2,
        SyntaxKind::RBrac => 3,
        SyntaxKind::Comma => 4,
        SyntaxKind::Dot => 5,
        SyntaxKind::Minus => 6,
        SyntaxKind::Plus => 7,
        SyntaxKind::Semicolon => 8,
        SyntaxKind::Slash => 9,
        SyntaxKind::Star => 10,
        SyntaxKind::Bang => 11,
        SyntaxKind::BangEqual => 12,
        SyntaxKind::Equal => 13,
        SyntaxKind::EqualEqual => 14,
        SyntaxKind::Greater => 15,
        SyntaxKind::GreaterEqual => 16,
        SyntaxKind::Less => 17,
        SyntaxKind::LessEqual => 18,
        SyntaxKind::Identifier => 19,
        SyntaxKind::StringLiteral => 20,
        SyntaxKind::Number => 21,
        SyntaxKind::And => 22,
        SyntaxKind::Class => 23,
        SyntaxKind::Else => 24,
        SyntaxKind::False => 25,
        SyntaxKind::Fn => 26,
        SyntaxKind::For => 27,
        SyntaxKind::If => 28,
        SyntaxKind::Nil => 29,
        SyntaxKind::Or => 30,
        SyntaxKind::Print => 31,
        SyntaxKind::Return => 32,
        SyntaxKind::Super => 33,
        SyntaxKind::This => 34,
        SyntaxKind::True => 35,
        SyntaxKind::Var => 36,
        SyntaxKind::While => 37,
        SyntaxKind::LineComment => 38,
        SyntaxKind::BlockComment => 39,
        SyntaxKind::Whitespace => 40,
        SyntaxKind::Newline => 41,
        SyntaxKind::ErrorUnexpected => 42,
        SyntaxKind::ErrorUnterminatedString => 43,
        SyntaxKind::Unary => 44,
        SyntaxKind::Factor => 45,
        SyntaxKind::Term => 46,
        SyntaxKind::Comparison => 47,
        SyntaxKind::Equality => 48,
        SyntaxKind::Root => 49,
    }
}

/// The syntax kind with a given raw number, `Root` for any number past it.
pub open spec fn syntax_of_raw(n: nat) -> SyntaxKind {
    if n == 0 {
        SyntaxKind::LParen
    } else if n == 1 {
        SyntaxKind::RParen
    } else if n == 2 {
        SyntaxKind::LBrac
    } else if n == 3 {
        SyntaxKind::RBrac
    } else if n == 4 {
        SyntaxKind::Comma
    } else if n == 5 {
        SyntaxKind::Dot
    } else if n == 6 {
        SyntaxKind::Minus
    } else if n == 7 {
        SyntaxKind::Plus
    } else if n == 8 {
        SyntaxKind::Semicolon
    } else if n == 9 {
        SyntaxKind::Slash
    } else if n == 10 {
        SyntaxKind::Star
    } else if n == 11 {
        SyntaxKind::Bang
    } else if n == 12 {
        SyntaxKind::BangEqual
    } else if n == 13 {
        SyntaxKind::Equal
    } else if n == 14 {
        SyntaxKind::EqualEqual
    } else if n == 15 {
        SyntaxKind::Greater
    } else if n == 16 {
        SyntaxKind::GreaterEqual
    } else if n == 17 {
        SyntaxKind::Less
    } else if n == 18 {
        SyntaxKind::LessEqual
    } else if n == 19 {
        SyntaxKind::Identifier
    } else if n == 20 {
        SyntaxKind::StringLiteral
    } else if n == 21 {
        SyntaxKind::Number
    } else if n == 22 {
        SyntaxKind::And
    } else if n == 23 {
        SyntaxKind::Class
    } else if n == 24 {
        SyntaxKind::Else
    } else if n == 25 {
        SyntaxKind::False
    } else if n == 26 {
        SyntaxKind::Fn
    } else if n == 27 {
        SyntaxKind::For
    } else if n == 28 {
        SyntaxKind::If
    } else if n == 29 {
        SyntaxKind::Nil
    } else if n == 30 {
        SyntaxKind::Or
    } else if n == 31 {
        SyntaxKind::Print
    } else if n == 32 {
        SyntaxKind::Return
    } else if n == 33 {
        SyntaxKind::Super
    } else if n == 34 {
        SyntaxKind::This
    } else if n == 35 {
        SyntaxKind::True
    } else if n == 36 {
        SyntaxKind::Var
    } else if n == 37 {
        SyntaxKind::While
    } else if n == 38 {
        SyntaxKind::LineComment
    } else if n == 39 {
        SyntaxKind::BlockComment
    } else if n == 40 {
        SyntaxKind::Whitespace
    } else if n == 41 {
        SyntaxKind::Newline
    } else if n == 42 {
        SyntaxKind::ErrorUnexpected
    } else if n == 43 {
        SyntaxKind::ErrorUnterminatedString
    } else if n == 44 {
        SyntaxKind::Unary
    } else if n == 45 {
        SyntaxKind::Factor
    } else if n == 46 {
        SyntaxKind::Term
    } else if n == 47 {
        SyntaxKind::Comparison
    } else if n == 48 {
        SyntaxKind::Equality
    } else {
        SyntaxKind::Root
    }
}

/// The syntax kind of a token kind.
pub open spec fn syntax_of_token(k: TokenKind) -> SyntaxKind {
    match k {
        TokenKind::LParen => SyntaxKind::LParen,
        TokenKind::RParen => SyntaxKind::RParen,
        TokenKind::LBrac => SyntaxKind::LBrac,
        TokenKind::RBrac => SyntaxKind::RBrac,
        TokenKind::Comma => SyntaxKind::Comma,
        TokenKind::Dot => SyntaxKind::Dot,
        TokenKind::Minus => SyntaxKind::Minus,
        TokenKind::Plus => SyntaxKind::Plus,
        TokenKind::Semicolon => SyntaxKind::Semicolon,
        TokenKind::Slash => SyntaxKind::Slash,
        TokenKind::Star => SyntaxKind::Star,
        TokenKind::Bang => SyntaxKind::Bang,
        TokenKind::BangEqual => SyntaxKind::BangEqual,
        TokenKind::Equal => SyntaxKind::Equal,
        TokenKind::EqualEqual => SyntaxKind::EqualEqual,
        TokenKind::Greater => SyntaxKind::Greater,
        TokenKind::GreaterEqual => SyntaxKind::GreaterEqual,
        TokenKind::Less => SyntaxKind::Less,
        TokenKind::LessEqual => SyntaxKind::LessEqual,
        TokenKind::Identifier => SyntaxKind::Identifier,
        TokenKind::StringLiteral => SyntaxKind::StringLiteral,
        TokenKind::Number => SyntaxKind::Number,
        TokenKind::And => SyntaxKind::And,
        TokenKind::Class => SyntaxKind::Class,
        TokenKind::Else => SyntaxKind::Else,
        TokenKind::False => SyntaxKind::False,
        TokenKind::Fn => SyntaxKind::Fn,
        TokenKind::For => SyntaxKind::For,
        TokenKind::If => SyntaxKind::If,
        TokenKind::Nil => SyntaxKind::Nil,
        TokenKind::Or => SyntaxKind::Or,
        TokenKind::Print => SyntaxKind::Print,
        TokenKind::Return => SyntaxKind::Return,
        TokenKind::Super => SyntaxKind::Super,
        TokenKind::This => SyntaxKind::This,
        TokenKind::True => SyntaxKind::True,
        TokenKind::Var => SyntaxKind::Var,
        TokenKind::While => SyntaxKind::While,
        TokenKind::LineComment => SyntaxKind::LineComment,
        TokenKind::BlockComment => SyntaxKind::BlockComment,
        TokenKind::Whitespace => SyntaxKind::Whitespace,
        TokenKind::Newline => SyntaxKind::Newline,
        TokenKind::ErrorUnexpected => SyntaxKind::ErrorUnexpected,
        TokenKind::ErrorUnterminatedString => SyntaxKind::ErrorUnterminatedString,
    }
}

impl SyntaxKind {
    /// The kind's raw number.
    pub fn to_raw(self) -> (r: u16)
        ensures
            r as nat == syntax_ordinal(self),
            r <= ROOT_RAW,
    {
        match self {
            SyntaxKind::LParen => 0,
            SyntaxKind::RParen => 1,
            SyntaxKind::LBrac => 2,
            SyntaxKind::RBrac => 3,
            SyntaxKind::Comma => 4,
            SyntaxKind::Dot => 5,
            SyntaxKind::Minus => 6,
            SyntaxKind::Plus => 7,
            SyntaxKind::Semicolon => 8,
            SyntaxKind::Slash => 9,
            SyntaxKind::Star => 10,
            SyntaxKind::Bang => 11,
            SyntaxKind::BangEqual => 12,
            SyntaxKind::Equal => 13,
            SyntaxKind::EqualEqual => 14,
            SyntaxKind::Greater => 15,
            SyntaxKind::GreaterEqual => 16,
            SyntaxKind::Less => 17,
            SyntaxKind::LessEqual => 18,
            SyntaxKind::Identifier => 19,
            SyntaxKind::StringLiteral => 20,
            SyntaxKind::Number => 21,
            SyntaxKind::And => 22,
            SyntaxKind::Class => 23,
            SyntaxKind::Else => 24,
            SyntaxKind::False => 25,
            SyntaxKind::Fn => 26,
            SyntaxKind::For => 27,
            SyntaxKind::If => 28,
            SyntaxKind::Nil => 29,
            SyntaxKind::Or => 30,
            SyntaxKind::Print => 31,
            SyntaxKind::Return => 32,
            SyntaxKind::Super => 33,
            SyntaxKind::This => 34,
            SyntaxKind::True => 35,
            SyntaxKind::Var => 36,
            SyntaxKind::While => 37,
            SyntaxKind::LineComment => 38,
            SyntaxKind::BlockComment => 39,
            SyntaxKind::Whitespace => 40,
            SyntaxKind::Newline => 41,
            SyntaxKind::ErrorUnexpected => 42,
            SyntaxKind::ErrorUnterminatedString => 43,
            SyntaxKind::Unary => 44,
            SyntaxKind::Factor => 45,
            SyntaxKind::Term => 46,
            SyntaxKind::Comparison => 47,
            SyntaxKind::Equality => 48,
            SyntaxKind::Root => 49,
        }
    }

    /// Decodes a raw number; numbers past `Root` are a programming error.
    pub fn from_raw(raw: u16) -> (r: SyntaxKind)
        requires
            raw <= ROOT_RAW,
        ensures
            syntax_ordinal(r) == raw as nat,
            r == syntax_of_raw(raw as nat),
    {
        match raw {
            0 => SyntaxKind::LParen,
            1 => SyntaxKind::RParen,
            2 => SyntaxKind::LBrac,
            3 => SyntaxKind::RBrac,
            4 => SyntaxKind::Comma,
            5 => SyntaxKind::Dot,
            6 => SyntaxKind::Minus,
            7 => SyntaxKind::Plus,
            8 => SyntaxKind::Semicolon,
            9 => SyntaxKind::Slash,
            10 => SyntaxKind::Star,
            11 => SyntaxKind::Bang,
            12 => SyntaxKind::BangEqual,
            13 => SyntaxKind::Equal,
            14 => SyntaxKind::EqualEqual,
            15 => SyntaxKind::Greater,
            16 => SyntaxKind::GreaterEqual,
            17 => SyntaxKind::Less,
            18 => SyntaxKind::LessEqual,
            19 => SyntaxKind::Identifier,
            20 => SyntaxKind::StringLiteral,
            21 => SyntaxKind::Number,
            22 => SyntaxKind::And,
            23 => SyntaxKind::Class,
            24 => SyntaxKind::Else,
            25 => SyntaxKind::False,
            26 => SyntaxKind::Fn,
            27 => SyntaxKind::For,
            28 => SyntaxKind::If,
            29 => SyntaxKind::Nil,
            30 => SyntaxKind::Or,
            31 => SyntaxKind::Print,
            32 => SyntaxKind::Return,
            33 => SyntaxKind::Super,
            34 => SyntaxKind::This,
            35 => SyntaxKind::True,
            36 => SyntaxKind::Var,
            37 => SyntaxKind::While,
            38 => SyntaxKind::LineComment,
            39 => SyntaxKind::BlockComment,
            40 => SyntaxKind::Whitespace,
            41 => SyntaxKind::Newline,
            42 => SyntaxKind::ErrorUnexpected,
            43 => SyntaxKind::ErrorUnterminatedString,
            44 => SyntaxKind::Unary,
            45 => SyntaxKind::Factor,
            46 => SyntaxKind::Term,
            47 => SyntaxKind::Comparison,
            48 => SyntaxKind::Equality,
            _ => SyntaxKind::Root,
        }
    }

    /// The syntax kind that stands for a token kind.
    pub fn from_token(k: TokenKind) -> (r: SyntaxKind)
        ensures
            r == syntax_of_token(k),
            syntax_ordinal(r) == token_ordinal(k),
    {
        match k {
            TokenKind::LParen => SyntaxKind::LParen,
            TokenKind::RParen => SyntaxKind::RParen,
            TokenKind::LBrac => SyntaxKind::LBrac,
            TokenKind::RBrac => SyntaxKind::RBrac,
            TokenKind::Comma => SyntaxKind::Comma,
            TokenKind::Dot => SyntaxKind::Dot,
            TokenKind::Minus => SyntaxKind::Minus,
            TokenKind::Plus => SyntaxKind::Plus,
            TokenKind::Semicolon => SyntaxKind::Semicolon,
            TokenKind::Slash => SyntaxKind::Slash,
            TokenKind::Star => SyntaxKind::Star,
            TokenKind::Bang => SyntaxKind::Bang,
            TokenKind::BangEqual => SyntaxKind::BangEqual,
            TokenKind::Equal => SyntaxKind::Equal,
            TokenKind::EqualEqual => SyntaxKind::EqualEqual,
            TokenKind::Greater => SyntaxKind::Greater,
            TokenKind::GreaterEqual => SyntaxKind::GreaterEqual,
            TokenKind::Less => SyntaxKind::Less,
            TokenKind::LessEqual => SyntaxKind::LessEqual,
            TokenKind::Identifier => SyntaxKind::Identifier,
            TokenKind::StringLiteral => SyntaxKind::StringLiteral,
            TokenKind::Number => SyntaxKind::Number,
            TokenKind::And => SyntaxKind::And,
            TokenKind::Class => SyntaxKind::Class,
            TokenKind::Else => SyntaxKind::Else,
            TokenKind::False => SyntaxKind::False,
            TokenKind::Fn => SyntaxKind::Fn,
            TokenKind::For => SyntaxKind::For,
            TokenKind::If => SyntaxKind::If,
            TokenKind::Nil => SyntaxKind::Nil,
            TokenKind::Or => SyntaxKind::Or,
            TokenKind::Print => SyntaxKind::Print,
            TokenKind::Return => SyntaxKind::Return,
            TokenKind::Super => SyntaxKind::Super,
            TokenKind::This => SyntaxKind::This,
            TokenKind::True => SyntaxKind::True,
            TokenKind::Var => SyntaxKind::Var,
            TokenKind::While => SyntaxKind::While,
            TokenKind::LineComment => SyntaxKind::LineComment,
            TokenKind::BlockComment => SyntaxKind::BlockComment,
            TokenKind::Whitespace => SyntaxKind::Whitespace,
            TokenKind::Newline => SyntaxKind::Newline,
            TokenKind::ErrorUnexpected => SyntaxKind::ErrorUnexpected,
            TokenKind::ErrorUnterminatedString => SyntaxKind::ErrorUnterminatedString,
        }
    }
}
impl From<TokenKind> for SyntaxKind {
    fn from(value: TokenKind) -> (r: SyntaxKind)
        ensures
            r == syntax_of_token(value),
    {
        SyntaxKind::from_token(value)
    }
}

impl vstd::std_specs::convert::FromSpecImpl<TokenKind> for SyntaxKind {
    open spec fn obeys_from_spec() -> bool {
        true
    }

    open spec fn from_spec(v: TokenKind) -> SyntaxKind {
        syntax_of_token(v)
    }
}

/// The language of the syntax trees: converts between `SyntaxKind` and the
/// raw numbers that a generic tree stores.
#[derive(Clone, Copy, Debug, PartialEq, Eq, PartialOrd, Ord, Hash)]
pub struct Lang;

impl Lang {
    /// Decodes a raw kind number; a number past `Root` is a programming error.
    pub fn kind_from_raw(raw: u16) -> (r: SyntaxKind)
        requires
            raw <= ROOT_RAW,
        ensures
            syntax_ordinal(r) == raw as nat,
    {
        SyntaxKind::from_raw(raw)
    }

    /// Encodes a kind as its raw number.
    pub fn kind_to_raw(kind: SyntaxKind) -> (r: u16)
        ensures
            r as nat == syntax_ordinal(kind),
    {
        kind.to_raw()
    }
}

/// Decoding the raw number of a kind gives the kind back.
pub proof fn lemma_raw_round_trip(k: SyntaxKind)
    ensures
        syntax_of_raw(syntax_ordinal(k)) == k,
        syntax_ordinal(k) <= ROOT_RAW as nat,
{
}

/// A token kind and its syntax kind have the same raw number, and distinct
/// token kinds have distinct syntax kinds.
pub proof fn lemma_token_kinds_embed(a: TokenKind, b: TokenKind)
    ensures
        syntax_ordinal(syntax_of_token(a)) == token_ordinal(a),
        syntax_of_token(a) == syntax_of_token(b) ==> a == b,
        syntax_of_token(a) != SyntaxKind::Root,
{
}

} // verus!
