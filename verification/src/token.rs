use vstd::prelude::*;

verus! {

/// The closed set of lexical categories. Every token the lexer emits is
/// paired with the 1-based source line on which it began.
///
/// Identifier names and string-literal contents are kept as raw bytes of the
/// source. A floating literal is decoded into its integer part, the value of
/// its fraction digits, and the number of fraction digits, so that the token
/// carries the exact decoded value `int_part + frac_value / 10^frac_digits`.
#[derive(Debug, Clone, PartialEq, Eq)]
pub enum Token {
    /// An identifier, carrying its name.
    Ident(Vec<u8>),
    /// An integer literal, carrying its decoded value.
    IntLit(u64),
    /// A floating literal: integer part, fraction-digit value, fraction-digit count.
    FloatLit(u64, u64, u64),
    /// A string literal, carrying its decoded contents (without the quotes).
    StrLit(Vec<u8>),
    /// A boolean literal.
    BoolLit(bool),
    /// The reserved word `var`.
    Var,
    /// The reserved word `if`.
    If,
    /// The reserved word `else`.
    Else,
    /// The reserved word `while`.
    While,
    /// The reserved word `print`.
    Print,
    /// `=`
    Assign,
    /// `+`
    Plus,
    /// `-`
    Minus,
    /// `*`
    Star,
    /// `/`
    Slash,
    /// `==`
    EqEq,
    /// `!=`
    NotEq,
    /// `<`
    Lt,
    /// `>`
    Gt,
    /// `<=`
    Le,
    /// `>=`
    Ge,
    /// `&&`
    AndAnd,
    /// `||`
    OrOr,
    /// `!`
    Not,
    /// `(`
    LParen,
    /// `)`
    RParen,
    /// `{`
    LBrace,
    /// `}`
    RBrace,
    /// `;`
    Semi,
    /// The sentinel marking exhausted input: emitted exactly once, last.
    End,
}

/// The mathematical model of a token: identical to `Token`, with byte
/// sequences abstracted to `Seq<u8>`.
pub enum Tok {
    Ident(Seq<u8>),
    IntLit(u64),
    FloatLit(u64, u64, u64),
    StrLit(Seq<u8>),
    BoolLit(bool),
    Var,
    If,
    Else,
    While,
    Print,
    Assign,
    Plus,
    Minus,
    Star,
    Slash,
    EqEq,
    NotEq,
    Lt,
    Gt,
    Le,
    Ge,
    AndAnd,
    OrOr,
    Not,
    LParen,
    RParen,
    LBrace,
    RBrace,
    Semi,
    End,
}

impl View for Token {
    type V = Tok;

    open spec fn view(&self) -> Tok {
        match self {
            Token::Ident(name) => Tok::Ident(name@),
            Token::IntLit(v) => Tok::IntLit(*v),
            Token::FloatLit(i, f, n) => Tok::FloatLit(*i, *f, *n),
            Token::StrLit(b) => Tok::StrLit(b@),
            Token::BoolLit(b) => Tok::BoolLit(*b),
            Token::Var => Tok::Var,
            Token::If => Tok::If,
            Token::Else => Tok::Else,
            Token::While => Tok::While,
            Token::Print => Tok::Print,
            Token::Assign => Tok::Assign,
            Token::Plus => Tok::Plus,
            Token::Minus => Tok::Minus,
            Token::Star => Tok::Star,
            Token::Slash => Tok::Slash,
            Token::EqEq => Tok::EqEq,
            Token::NotEq => Tok::NotEq,
            Token::Lt => Tok::Lt,
            Token::Gt => Tok::Gt,
            Token::Le => Tok::Le,
            Token::Ge => Tok::Ge,
            Token::AndAnd => Tok::AndAnd,
            Token::OrOr => Tok::OrOr,
            Token::Not => Tok::Not,
            Token::LParen => Tok::LParen,
            Token::RParen => Tok::RParen,
            Token::LBrace => Tok::LBrace,
            Token::RBrace => Tok::RBrace,
            Token::Semi => Tok::Semi,
            Token::End => Tok::End,
        }
    }
}

/// The model of a line-tagged token stream: each `(Token, u64)` pair viewed
/// as its token model beside the line as a mathematical integer.
pub open spec fn toks_view(ts: Seq<(Token, u64)>) -> Seq<(Tok, int)> {
    Seq::new(ts.len(), |i: int| (ts[i].0@, ts[i].1 as int))
}

} // verus!
