use vstd::prelude::*;

verus! {

/// Which analysis phase detected the failure.
#[derive(Debug, Clone, Copy, PartialEq, Eq, Structural)]
pub enum Phase {
    Lexical,
    Syntactic,
}

/// The closed set of failure causes. The diagnostic data stays structured;
/// rendering a user-visible message is the boundary's concern, helped by
/// [`Diagnostic::message`].
#[derive(Debug, Clone, Copy, PartialEq, Eq, Structural)]
pub enum DiagKind {
    /// A character that starts no token, carried along.
    UnrecognizedChar(u8),
    /// A string literal whose closing quote is missing on its opening line.
    UnterminatedString,
    /// A numeric literal with a second decimal point or too many digits.
    MalformedNumber,
    /// A statement or expression was required and the current token starts none.
    ExpectedExpression,
    /// `;` was required after a statement.
    ExpectedSemicolon,
    /// `(` was required.
    ExpectedLParen,
    /// `)` was required.
    ExpectedRParen,
    /// `{` was required.
    ExpectedLBrace,
    /// `}` was required.
    ExpectedRBrace,
    /// An identifier was required after `var`.
    ExpectedIdentifier,
    /// `=` was required after the declared name.
    ExpectedAssign,
    /// The configured nesting-depth bound was exceeded.
    DepthExceeded,
}

/// A structured error record: the failing phase, the 1-based source line of
/// the offending position, and the cause. Constructed at the exact point of
/// failure; it immediately terminates the analysis that produced it.
#[derive(Debug, Clone, Copy, PartialEq, Eq, Structural)]
pub struct Diagnostic {
    pub line: u64,
    pub phase: Phase,
    pub kind: DiagKind,
}

/// The model of a diagnostic, with the line as a mathematical integer.
pub struct DiagS {
    pub line: int,
    pub phase: Phase,
    pub kind: DiagKind,
}

impl View for Diagnostic {
    type V = DiagS;

    open spec fn view(&self) -> DiagS {
        DiagS { line: self.line as int, phase: self.phase, kind: self.kind }
    }
}

impl Diagnostic {
    /// The fixed message text belonging to a diagnostic's cause.
    pub open spec fn spec_message(kind: DiagKind) -> Seq<char> {
        match kind {
            DiagKind::UnrecognizedChar(_) => "unrecognized character"@,
            DiagKind::UnterminatedString => "unterminated string literal"@,
            DiagKind::MalformedNumber => "malformed numeric literal"@,
            DiagKind::ExpectedExpression => "expected an expression"@,
            DiagKind::ExpectedSemicolon => "expected ';'"@,
            DiagKind::ExpectedLParen => "expected '('"@,
            DiagKind::ExpectedRParen => "expected ')'"@,
            DiagKind::ExpectedLBrace => "expected '{'"@,
            DiagKind::ExpectedRBrace => "expected '}'"@,
            DiagKind::ExpectedIdentifier => "expected an identifier"@,
            DiagKind::ExpectedAssign => "expected '='"@,
            DiagKind::DepthExceeded => "nesting too deep"@,
        }
    }

    /// A human-readable message naming what failed, for the boundary to render.
    pub fn message(&self) -> (r: &'static str)
        ensures
            r@ == Self::spec_message(self.kind),
    {
        match self.kind {
            DiagKind::UnrecognizedChar(_) => "unrecognized character",
            DiagKind::UnterminatedString => "unterminated string literal",
            DiagKind::MalformedNumber => "malformed numeric literal",
            DiagKind::ExpectedExpression => "expected an expression",
            DiagKind::ExpectedSemicolon => "expected ';'",
            DiagKind::ExpectedLParen => "expected '('",
            DiagKind::ExpectedRParen => "expected ')'",
            DiagKind::ExpectedLBrace => "expected '{'",
            DiagKind::ExpectedRBrace => "expected '}'",
            DiagKind::ExpectedIdentifier => "expected an identifier",
            DiagKind::ExpectedAssign => "expected '='",
            DiagKind::DepthExceeded => "nesting too deep",
        }
    }
}

} // verus!
