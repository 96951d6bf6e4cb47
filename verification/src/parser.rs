use vstd::prelude::*;
use crate::ast::{stmts_sview, BinOp, Expr, ExprS, Stmt, StmtS, UnOp};
use crate::diag::{DiagKind, Diagnostic, Phase};
use crate::token::{toks_view, Tok, Token};

verus! {

/// The nesting-depth bound: parsing recursion deeper than this fails with a
/// diagnostic instead of exhausting the call stack.
pub const MAX_DEPTH: u64 = 256;

/// Outcome of one parsing rule: the parsed node with the cursor after it, or
/// the first syntactic failure.
pub enum PRes<A> {
    Parsed { v: A, pos: int },
    Failed { kind: DiagKind, line: int },
}

/// The token and line at `pos`, with a harmless default outside the stream.
pub open spec fn cur(ts: Seq<(Tok, int)>, pos: int) -> (Tok, int) {
    if 0 <= pos && pos < ts.len() {
        ts[pos]
    } else {
        (Tok::End, 1)
    }
}

/// A well-formed token stream, as the lexer produces it: nonempty and closed
/// by the `End` sentinel.
pub open spec fn stream_wf(ts: Seq<(Tok, int)>) -> bool {
    &&& ts.len() >= 1
    &&& ts[ts.len() - 1].0 is End
}

/// The binary operator that token `t` denotes at precedence level `level`
/// (5 = logical or, down to 0 = multiplicative), if any.
pub open spec fn bin_op_at(level: nat, t: Tok) -> Option<BinOp> {
    match t {
        Tok::OrOr => if level == 5 {
            Option::Some(BinOp::Or)
        } else {
            Option::None
        },
        Tok::AndAnd => if level == 4 {
            Option::Some(BinOp::And)
        } else {
            Option::None
        },
        Tok::EqEq => if level == 3 {
            Option::Some(BinOp::Equal)
        } else {
            Option::None
        },
        Tok::NotEq => if level == 3 {
            Option::Some(BinOp::NotEqual)
        } else {
            Option::None
        },
        Tok::Lt => if level == 2 {
            Option::Some(BinOp::Less)
        } else {
            Option::None
        },
        Tok::Gt => if level == 2 {
            Option::Some(BinOp::Greater)
        } else {
            Option::None
        },
        Tok::Le => if level == 2 {
            Option::Some(BinOp::LessEq)
        } else {
            Option::None
        },
        Tok::Ge => if level == 2 {
            Option::Some(BinOp::GreaterEq)
        } else {
            Option::None
        },
        Tok::Plus => if level == 1 {
            Option::Some(BinOp::Add)
        } else {
            Option::None
        },
        Tok::Minus => if level == 1 {
            Option::Some(BinOp::Sub)
        } else {
            Option::None
        },
        Tok::Star => if level == 0 {
            Option::Some(BinOp::Mul)
        } else {
            Option::None
        },
        Tok::Slash => if level == 0 {
            Option::Some(BinOp::Div)
        } else {
            Option::None
        },
        _ => Option::None,
    }
}

/// A primary expression: a literal, a variable reference, or a parenthesized
/// expression, which resets the precedence context and costs one level of
/// nesting depth.
pub open spec fn s_parse_primary(ts: Seq<(Tok, int)>, pos: int, fuel: nat) -> PRes<ExprS>
    decreases fuel, ts.len() - pos, 0int,
{
    let (t, ln) = cur(ts, pos);
    match t {
        Tok::IntLit(v) => PRes::Parsed { v: ExprS::IntLit(v), pos: pos + 1 },
        Tok::FloatLit(a, b, c) => PRes::Parsed { v: ExprS::FloatLit(a, b, c), pos: pos + 1 },
        Tok::StrLit(b) => PRes::Parsed { v: ExprS::StrLit(b), pos: pos + 1 },
        Tok::BoolLit(b) => PRes::Parsed { v: ExprS::BoolLit(b), pos: pos + 1 },
        Tok::Ident(n) => PRes::Parsed { v: ExprS::Var(n), pos: pos + 1 },
        Tok::LParen => if fuel == 0 {
            PRes::Failed { kind: DiagKind::DepthExceeded, line: ln }
        } else {
            match s_parse_expr(ts, pos + 1, (fuel - 1) as nat) {
                PRes::Failed { kind, line } => PRes::Failed { kind, line },
                PRes::Parsed { v, pos: p } => {
                    if cur(ts, p).0 is RParen {
                        PRes::Parsed { v: ExprS::Group(Box::new(v)), pos: p + 1 }
                    } else {
                        PRes::Failed { kind: DiagKind::ExpectedRParen, line: cur(ts, p).1 }
                    }
                },
            }
        },
        _ => PRes::Failed { kind: DiagKind::ExpectedExpression, line: ln },
    }
}

/// A unary expression: `-` or `!` applied to a unary expression — each
/// application costs one level of nesting depth — or a primary expression.
pub open spec fn s_parse_unary(ts: Seq<(Tok, int)>, pos: int, fuel: nat) -> PRes<ExprS>
    decreases fuel, ts.len() - pos, 1int,
{
    let (t, ln) = cur(ts, pos);
    if t is Minus || t is Not {
        if fuel == 0 {
            PRes::Failed { kind: DiagKind::DepthExceeded, line: ln }
        } else {
            match s_parse_unary(ts, pos + 1, (fuel - 1) as nat) {
                PRes::Failed { kind, line } => PRes::Failed { kind, line },
                PRes::Parsed { v, pos: p } => PRes::Parsed {
                    v: ExprS::Unary(if t is Minus { UnOp::Neg } else { UnOp::Not }, Box::new(v)),
                    pos: p,
                },
            }
        }
    } else {
        s_parse_primary(ts, pos, fuel)
    }
}

/// A left-associative binary level: its operand rule, then operators of this
/// level folded in from the left.
pub open spec fn s_parse_bin(ts: Seq<(Tok, int)>, pos: int, fuel: nat, level: nat) -> PRes<ExprS>
    decreases fuel, ts.len() - pos, 2 + level,
{
    let first = if level == 0 {
        s_parse_unary(ts, pos, fuel)
    } else {
        s_parse_bin(ts, pos, fuel, (level - 1) as nat)
    };
    match first {
        PRes::Failed { kind, line } => PRes::Failed { kind, line },
        PRes::Parsed { v, pos: p } => {
            if pos < p && p <= ts.len() {
                s_parse_bin_rest(ts, p, v, fuel, level)
            } else {
                // An operand always advances the cursor; this branch only
                // keeps the recursion well-founded.
                PRes::Parsed { v, pos: p }
            }
        },
    }
}

/// The left fold of one binary level over an already-parsed left operand.
pub open spec fn s_parse_bin_rest(
    ts: Seq<(Tok, int)>,
    pos: int,
    lhs: ExprS,
    fuel: nat,
    level: nat,
) -> PRes<ExprS>
    decreases fuel, ts.len() - pos, 8int,
{
    match bin_op_at(level, cur(ts, pos).0) {
        Option::None => PRes::Parsed { v: lhs, pos },
        Option::Some(op) => {
            let rhs = if level == 0 {
                s_parse_unary(ts, pos + 1, fuel)
            } else {
                s_parse_bin(ts, pos + 1, fuel, (level - 1) as nat)
            };
            match rhs {
                PRes::Failed { kind, line } => PRes::Failed { kind, line },
                PRes::Parsed { v, pos: p } => {
                    if pos < p && p <= ts.len() {
                        s_parse_bin_rest(ts, p, ExprS::Binary(op, Box::new(lhs), Box::new(v)), fuel, level)
                    } else {
                        // See `s_parse_bin`: operands always advance.
                        PRes::Parsed { v: ExprS::Binary(op, Box::new(lhs), Box::new(v)), pos: p }
                    }
                },
            }
        },
    }
}

/// A full expression: the lowest-precedence binary level.
pub open spec fn s_parse_expr(ts: Seq<(Tok, int)>, pos: int, fuel: nat) -> PRes<ExprS>
    decreases fuel, ts.len() - pos, 8int,
{
    s_parse_bin(ts, pos, fuel, 5)
}

/// A bare expression statement: an expression closed by `;`.
pub open spec fn s_parse_exprstmt(ts: Seq<(Tok, int)>, pos: int, fuel: nat) -> PRes<StmtS>
    decreases fuel, ts.len() - pos, 9int,
{
    match s_parse_expr(ts, pos, fuel) {
        PRes::Failed { kind, line } => PRes::Failed { kind, line },
        PRes::Parsed { v, pos: p } => {
            if cur(ts, p).0 is Semi {
                PRes::Parsed { v: StmtS::ExprStmt(v), pos: p + 1 }
            } else {
                PRes::Failed { kind: DiagKind::ExpectedSemicolon, line: cur(ts, p).1 }
            }
        },
    }
}

/// `var name = init ;`
pub open spec fn s_parse_var_stmt(ts: Seq<(Tok, int)>, pos: int, fuel: nat) -> PRes<StmtS>
    decreases fuel, ts.len() - pos, 9int,
{
    let (t1, l1) = cur(ts, pos + 1);
    match t1 {
        Tok::Ident(name) => {
            let (t2, l2) = cur(ts, pos + 2);
            if !(t2 is Assign) {
                PRes::Failed { kind: DiagKind::ExpectedAssign, line: l2 }
            } else {
                match s_parse_expr(ts, pos + 3, fuel) {
                    PRes::Failed { kind, line } => PRes::Failed { kind, line },
                    PRes::Parsed { v, pos: p } => {
                        if cur(ts, p).0 is Semi {
                            PRes::Parsed { v: StmtS::VarDecl { name, init: v }, pos: p + 1 }
                        } else {
                            PRes::Failed { kind: DiagKind::ExpectedSemicolon, line: cur(ts, p).1 }
                        }
                    },
                }
            }
        },
        _ => PRes::Failed { kind: DiagKind::ExpectedIdentifier, line: l1 },
    }
}

/// `if ( cond ) block` with an optional `else block`.
pub open spec fn s_parse_if_stmt(ts: Seq<(Tok, int)>, pos: int, fuel: nat) -> PRes<StmtS>
    decreases fuel, ts.len() - pos, 9int,
{
    let (t1, l1) = cur(ts, pos + 1);
    if fuel == 0 {
        PRes::Failed { kind: DiagKind::DepthExceeded, line: cur(ts, pos).1 }
    } else if !(t1 is LParen) {
        PRes::Failed { kind: DiagKind::ExpectedLParen, line: l1 }
    } else {
        match s_parse_expr(ts, pos + 2, fuel) {
            PRes::Failed { kind, line } => PRes::Failed { kind, line },
            PRes::Parsed { v: cond, pos: p } => {
                if !(cur(ts, p).0 is RParen) {
                    PRes::Failed { kind: DiagKind::ExpectedRParen, line: cur(ts, p).1 }
                } else {
                    match s_parse_block(ts, p + 1, (fuel - 1) as nat) {
                        PRes::Failed { kind, line } => PRes::Failed { kind, line },
                        PRes::Parsed { v: thn, pos: p2 } => {
                            if cur(ts, p2).0 is Else {
                                match s_parse_block(ts, p2 + 1, (fuel - 1) as nat) {
                                    PRes::Failed { kind, line } => PRes::Failed { kind, line },
                                    PRes::Parsed { v: els, pos: p3 } => PRes::Parsed {
                                        v: StmtS::If {
                                            cond,
                                            then_branch: thn,
                                            else_branch: Option::Some(els),
                                        },
                                        pos: p3,
                                    },
                                }
                            } else {
                                PRes::Parsed {
                                    v: StmtS::If { cond, then_branch: thn, else_branch: Option::None },
                                    pos: p2,
                                }
                            }
                        },
                    }
                }
            },
        }
    }
}

/// `while ( cond ) block`.
pub open spec fn s_parse_while_stmt(ts: Seq<(Tok, int)>, pos: int, fuel: nat) -> PRes<StmtS>
    decreases fuel, ts.len() - pos, 9int,
{
    let (t1, l1) = cur(ts, pos + 1);
    if fuel == 0 {
        PRes::Failed { kind: DiagKind::DepthExceeded, line: cur(ts, pos).1 }
    } else if !(t1 is LParen) {
        PRes::Failed { kind: DiagKind::ExpectedLParen, line: l1 }
    } else {
        match s_parse_expr(ts, pos + 2, fuel) {
            PRes::Failed { kind, line } => PRes::Failed { kind, line },
            PRes::Parsed { v: cond, pos: p } => {
                if !(cur(ts, p).0 is RParen) {
                    PRes::Failed { kind: DiagKind::ExpectedRParen, line: cur(ts, p).1 }
                } else {
                    match s_parse_block(ts, p + 1, (fuel - 1) as nat) {
                        PRes::Failed { kind, line } => PRes::Failed { kind, line },
                        PRes::Parsed { v: body, pos: p2 } => PRes::Parsed {
                            v: StmtS::While { cond, body },
                            pos: p2,
                        },
                    }
                }
            },
        }
    }
}

/// `print expr ;`
pub open spec fn s_parse_print_stmt(ts: Seq<(Tok, int)>, pos: int, fuel: nat) -> PRes<StmtS>
    decreases fuel, ts.len() - pos, 9int,
{
    match s_parse_expr(ts, pos + 1, fuel) {
        PRes::Failed { kind, line } => PRes::Failed { kind, line },
        PRes::Parsed { v, pos: p } => {
            if cur(ts, p).0 is Semi {
                PRes::Parsed { v: StmtS::Print(v), pos: p + 1 }
            } else {
                PRes::Failed { kind: DiagKind::ExpectedSemicolon, line: cur(ts, p).1 }
            }
        },
    }
}

/// `name = value ;`, reached when an identifier is followed by `=`.
pub open spec fn s_parse_assign_stmt(ts: Seq<(Tok, int)>, pos: int, fuel: nat) -> PRes<StmtS>
    decreases fuel, ts.len() - pos, 9int,
{
    let (t, ln) = cur(ts, pos);
    match t {
        Tok::Ident(name) => {
            match s_parse_expr(ts, pos + 2, fuel) {
                PRes::Failed { kind, line } => PRes::Failed { kind, line },
                PRes::Parsed { v, pos: p } => {
                    if cur(ts, p).0 is Semi {
                        PRes::Parsed { v: StmtS::Assign { name, value: v }, pos: p + 1 }
                    } else {
                        PRes::Failed { kind: DiagKind::ExpectedSemicolon, line: cur(ts, p).1 }
                    }
                },
            }
        },
        _ => PRes::Failed { kind: DiagKind::ExpectedExpression, line: ln },
    }
}

/// One statement, chosen by the current token: declaration, conditional,
/// loop, block, print, assignment (identifier followed by `=`), or
/// expression statement. Exhausted nesting depth fails here.
pub open spec fn s_parse_stmt(ts: Seq<(Tok, int)>, pos: int, fuel: nat) -> PRes<StmtS>
    decreases fuel, ts.len() - pos, 10int,
{
    let (t, ln) = cur(ts, pos);
    if fuel == 0 {
        PRes::Failed { kind: DiagKind::DepthExceeded, line: ln }
    } else {
        match t {
            Tok::Var => s_parse_var_stmt(ts, pos, fuel),
            Tok::If => s_parse_if_stmt(ts, pos, fuel),
            Tok::While => s_parse_while_stmt(ts, pos, fuel),
            Tok::LBrace => match s_parse_block(ts, pos, (fuel - 1) as nat) {
                PRes::Failed { kind, line } => PRes::Failed { kind, line },
                PRes::Parsed { v, pos: p } => PRes::Parsed { v: StmtS::Block(v), pos: p },
            },
            Tok::Print => s_parse_print_stmt(ts, pos, fuel),
            Tok::Ident(_) => if cur(ts, pos + 1).0 is Assign {
                s_parse_assign_stmt(ts, pos, fuel)
            } else {
                s_parse_exprstmt(ts, pos, fuel)
            },
            _ => s_parse_exprstmt(ts, pos, fuel),
        }
    }
}

/// The statements inside a block, up to the closing brace (or the `End`
/// sentinel, which the block rule then rejects).
pub open spec fn s_parse_items(ts: Seq<(Tok, int)>, pos: int, fuel: nat) -> PRes<Seq<StmtS>>
    decreases fuel, ts.len() - pos, 11int,
{
    let (t, ln) = cur(ts, pos);
    if t is RBrace || t is End {
        PRes::Parsed { v: Seq::empty(), pos }
    } else {
        match s_parse_stmt(ts, pos, fuel) {
            PRes::Failed { kind, line } => PRes::Failed { kind, line },
            PRes::Parsed { v: st, pos: p } => {
                if pos < p && p <= ts.len() {
                    match s_parse_items(ts, p, fuel) {
                        PRes::Failed { kind, line } => PRes::Failed { kind, line },
                        PRes::Parsed { v: rest, pos: p2 } => PRes::Parsed { v: seq![st] + rest, pos: p2 },
                    }
                } else {
                    // A statement always advances the cursor; this branch
                    // only keeps the recursion well-founded.
                    PRes::Parsed { v: seq![st], pos: p }
                }
            },
        }
    }
}

/// A braced block: `{`, its statements, `}`.
pub open spec fn s_parse_block(ts: Seq<(Tok, int)>, pos: int, fuel: nat) -> PRes<Seq<StmtS>>
    decreases fuel, ts.len() - pos, 12int,
{
    let (t, ln) = cur(ts, pos);
    if !(t is LBrace) {
        PRes::Failed { kind: DiagKind::ExpectedLBrace, line: ln }
    } else {
        match s_parse_items(ts, pos + 1, fuel) {
            PRes::Failed { kind, line } => PRes::Failed { kind, line },
            PRes::Parsed { v, pos: p } => {
                if cur(ts, p).0 is RBrace {
                    PRes::Parsed { v, pos: p + 1 }
                } else {
                    PRes::Failed { kind: DiagKind::ExpectedRBrace, line: cur(ts, p).1 }
                }
            },
        }
    }
}

/// The whole program: statements until the `End` sentinel, each parsed with
/// the full nesting-depth budget.
pub open spec fn s_parse_program(ts: Seq<(Tok, int)>, pos: int) -> PRes<Seq<StmtS>>
    decreases ts.len() - pos,
{
    if cur(ts, pos).0 is End {
        PRes::Parsed { v: Seq::empty(), pos }
    } else {
        match s_parse_stmt(ts, pos, MAX_DEPTH as nat) {
            PRes::Failed { kind, line } => PRes::Failed { kind, line },
            PRes::Parsed { v: st, pos: p } => {
                if pos < p && p <= ts.len() {
                    match s_parse_program(ts, p) {
                        PRes::Failed { kind, line } => PRes::Failed { kind, line },
                        PRes::Parsed { v: rest, pos: p2 } => PRes::Parsed { v: seq![st] + rest, pos: p2 },
                    }
                } else {
                    // A statement always advances the cursor; this branch
                    // only keeps the recursion well-founded.
                    PRes::Parsed { v: seq![st], pos: p }
                }
            },
        }
    }
}

// ---------------------------------------------------------------------------
// The parser
// ---------------------------------------------------------------------------

/// Copy an identifier or string payload out of a borrowed token.
fn clone_bytes(v: &Vec<u8>) -> (r: Vec<u8>)
    ensures
        r@ == v@,
{
    let mut out: Vec<u8> = Vec::new();
    let mut i: usize = 0;
    while i < v.len()
        invariant
            i <= v@.len(),
            out@ =~= v@.subrange(0, i as int),
        decreases v@.len() - i,
    {
        out.push(v[i]);
        proof {
            assert(out@ =~= v@.subrange(0, i + 1 as int));
        }
        i = i + 1;
    }
    proof {
        assert(v@.subrange(0, v@.len() as int) =~= v@);
    }
    out
}

/// The executable operator table, mirroring `bin_op_at`.
fn bin_op_at_exec(level: u64, t: &Token) -> (r: Option<BinOp>)
    ensures
        r == bin_op_at(level as nat, t@),
{
    match t {
        Token::OrOr => if level == 5 {
            Option::Some(BinOp::Or)
        } else {
            Option::None
        },
        Token::AndAnd => if level == 4 {
            Option::Some(BinOp::And)
        } else {
            Option::None
        },
        Token::EqEq => if level == 3 {
            Option::Some(BinOp::Equal)
        } else {
            Option::None
        },
        Token::NotEq => if level == 3 {
            Option::Some(BinOp::NotEqual)
        } else {
            Option::None
        },
        Token::Lt => if level == 2 {
            Option::Some(BinOp::Less)
        } else {
            Option::None
        },
        Token::Gt => if level == 2 {
            Option::Some(BinOp::Greater)
        } else {
            Option::None
        },
        Token::Le => if level == 2 {
            Option::Some(BinOp::LessEq)
        } else {
            Option::None
        },
        Token::Ge => if level == 2 {
            Option::Some(BinOp::GreaterEq)
        } else {
            Option::None
        },
        Token::Plus => if level == 1 {
            Option::Some(BinOp::Add)
        } else {
            Option::None
        },
        Token::Minus => if level == 1 {
            Option::Some(BinOp::Sub)
        } else {
            Option::None
        },
        Token::Star => if level == 0 {
            Option::Some(BinOp::Mul)
        } else {
            Option::None
        },
        Token::Slash => if level == 0 {
            Option::Some(BinOp::Div)
        } else {
            Option::None
        },
        _ => Option::None,
    }
}

/// The recursive-descent parser: the complete line-tagged token stream
/// (closed by its `End` sentinel) and a private cursor. Built fresh per
/// compile call and never shared.
pub struct Parser<'a> {
    tokens: &'a Vec<(Token, u64)>,
    pos: usize,
}

impl<'a> Parser<'a> {
    /// The model of the stream being parsed.
    pub closed spec fn toks(&self) -> Seq<(Tok, int)> {
        toks_view(self.tokens@)
    }

    /// The cursor: how many tokens are consumed.
    pub closed spec fn pos(&self) -> int {
        self.pos as int
    }

    /// The stream is closed by `End` and the cursor never passes the last
    /// token.
    pub closed spec fn wf(&self) -> bool {
        &&& stream_wf(self.toks())
        &&& self.pos < self.tokens.len()
    }

    /// A fresh parser at the start of `tokens`.
    pub fn new(tokens: &'a Vec<(Token, u64)>) -> (r: Parser<'a>)
        requires
            stream_wf(toks_view(tokens@)),
        ensures
            r.wf(),
            r.toks() == toks_view(tokens@),
            r.pos() == 0,
    {
        Parser { tokens, pos: 0 }
    }

    fn parse_primary(&mut self, fuel: u64) -> (r: Result<Expr, Diagnostic>)
        requires
            old(self).wf(),
        ensures
            final(self).wf(),
            final(self).toks() == old(self).toks(),
            old(self).pos() <= final(self).pos(),
            match (r, s_parse_primary(old(self).toks(), old(self).pos(), fuel as nat)) {
                (Result::Ok(e), PRes::Parsed { v, pos }) => e.sview() == v && final(self).pos()
                    == pos && old(self).pos() < pos,
                (Result::Err(d), PRes::Failed { kind, line }) => d@.kind == kind && d@.line == line
                    && d@.phase == Phase::Syntactic,
                _ => false,
            },
        decreases fuel, old(self).toks().len() - old(self).pos(), 0int,
    {
        let toks = self.tokens;
        let ln = toks[self.pos].1;
        match &toks[self.pos].0 {
            Token::IntLit(v) => {
                let val = *v;
                self.pos = self.pos + 1;
                Ok(Expr::IntLit(val))
            },
            Token::FloatLit(a, b, c) => {
                let fa = *a;
                let fb = *b;
                let fc = *c;
                self.pos = self.pos + 1;
                Ok(Expr::FloatLit(fa, fb, fc))
            },
            Token::StrLit(b) => {
                let content = clone_bytes(b);
                self.pos = self.pos + 1;
                Ok(Expr::StrLit(content))
            },
            Token::BoolLit(b) => {
                let val = *b;
                self.pos = self.pos + 1;
                Ok(Expr::BoolLit(val))
            },
            Token::Ident(n) => {
                let name = clone_bytes(n);
                self.pos = self.pos + 1;
                Ok(Expr::Var(name))
            },
            Token::LParen => {
                if fuel == 0 {
                    return Err(
                        Diagnostic { line: ln, phase: Phase::Syntactic, kind: DiagKind::DepthExceeded },
                    );
                }
                self.pos = self.pos + 1;
                match self.parse_expr(fuel - 1) {
                    Err(d) => Err(d),
                    Ok(e) => {
                        match &toks[self.pos].0 {
                            Token::RParen => {
                                self.pos = self.pos + 1;
                                Ok(Expr::Group(Box::new(e)))
                            },
                            _ => Err(
                                Diagnostic {
                                    line: toks[self.pos].1,
                                    phase: Phase::Syntactic,
                                    kind: DiagKind::ExpectedRParen,
                                },
                            ),
                        }
                    },
                }
            },
            _ => Err(
                Diagnostic { line: ln, phase: Phase::Syntactic, kind: DiagKind::ExpectedExpression },
            ),
        }
    }

    fn parse_unary(&mut self, fuel: u64) -> (r: Result<Expr, Diagnostic>)
        requires
            old(self).wf(),
        ensures
            final(self).wf(),
            final(self).toks() == old(self).toks(),
            old(self).pos() <= final(self).pos(),
            match (r, s_parse_unary(old(self).toks(), old(self).pos(), fuel as nat)) {
                (Result::Ok(e), PRes::Parsed { v, pos }) => e.sview() == v && final(self).pos()
                    == pos && old(self).pos() < pos,
                (Result::Err(d), PRes::Failed { kind, line }) => d@.kind == kind && d@.line == line
                    && d@.phase == Phase::Syntactic,
                _ => false,
            },
        decreases fuel, old(self).toks().len() - old(self).pos(), 1int,
    {
        let toks = self.tokens;
        let ln = toks[self.pos].1;
        let op = match &toks[self.pos].0 {
            Token::Minus => Option::Some(UnOp::Neg),
            Token::Not => Option::Some(UnOp::Not),
            _ => Option::None,
        };
        match op {
            Option::Some(u) => {
                if fuel == 0 {
                    return Err(
                        Diagnostic { line: ln, phase: Phase::Syntactic, kind: DiagKind::DepthExceeded },
                    );
                }
                self.pos = self.pos + 1;
                match self.parse_unary(fuel - 1) {
                    Err(d) => Err(d),
                    Ok(e) => Ok(Expr::Unary(u, Box::new(e))),
                }
            },
            Option::None => self.parse_primary(fuel),
        }
    }

    fn parse_bin(&mut self, fuel: u64, level: u64) -> (r: Result<Expr, Diagnostic>)
        requires
            old(self).wf(),
            level <= 5,
        ensures
            final(self).wf(),
            final(self).toks() == old(self).toks(),
            old(self).pos() <= final(self).pos(),
            match (r, s_parse_bin(old(self).toks(), old(self).pos(), fuel as nat, level as nat)) {
                (Result::Ok(e), PRes::Parsed { v, pos }) => e.sview() == v && final(self).pos()
                    == pos && old(self).pos() < pos,
                (Result::Err(d), PRes::Failed { kind, line }) => d@.kind == kind && d@.line == line
                    && d@.phase == Phase::Syntactic,
                _ => false,
            },
        decreases fuel, old(self).toks().len() - old(self).pos(), 2 + level,
    {
        let first = if level == 0 {
            self.parse_unary(fuel)
        } else {
            self.parse_bin(fuel, level - 1)
        };
        match first {
            Err(d) => Err(d),
            Ok(lhs) => self.parse_bin_rest(fuel, level, lhs),
        }
    }

    fn parse_bin_rest(&mut self, fuel: u64, level: u64, lhs: Expr) -> (r: Result<Expr, Diagnostic>)
        requires
            old(self).wf(),
            level <= 5,
        ensures
            final(self).wf(),
            final(self).toks() == old(self).toks(),
            old(self).pos() <= final(self).pos(),
            match (r, s_parse_bin_rest(
                old(self).toks(),
                old(self).pos(),
                lhs.sview(),
                fuel as nat,
                level as nat,
            )) {
                (Result::Ok(e), PRes::Parsed { v, pos }) => e.sview() == v && final(self).pos()
                    == pos,
                (Result::Err(d), PRes::Failed { kind, line }) => d@.kind == kind && d@.line == line
                    && d@.phase == Phase::Syntactic,
                _ => false,
            },
        decreases fuel, old(self).toks().len() - old(self).pos(), 8int,
    {
        let toks = self.tokens;
        match bin_op_at_exec(level, &toks[self.pos].0) {
            Option::None => Ok(lhs),
            Option::Some(op) => {
                self.pos = self.pos + 1;
                let rhs = if level == 0 {
                    self.parse_unary(fuel)
                } else {
                    self.parse_bin(fuel, level - 1)
                };
                match rhs {
                    Err(d) => Err(d),
                    Ok(r0) => {
                        let combined = Expr::Binary(op, Box::new(lhs), Box::new(r0));
                        self.parse_bin_rest(fuel, level, combined)
                    },
                }
            },
        }
    }

    fn parse_expr(&mut self, fuel: u64) -> (r: Result<Expr, Diagnostic>)
        requires
            old(self).wf(),
        ensures
            final(self).wf(),
            final(self).toks() == old(self).toks(),
            old(self).pos() <= final(self).pos(),
            match (r, s_parse_expr(old(self).toks(), old(self).pos(), fuel as nat)) {
                (Result::Ok(e), PRes::Parsed { v, pos }) => e.sview() == v && final(self).pos()
                    == pos && old(self).pos() < pos,
                (Result::Err(d), PRes::Failed { kind, line }) => d@.kind == kind && d@.line == line
                    && d@.phase == Phase::Syntactic,
                _ => false,
            },
        decreases fuel, old(self).toks().len() - old(self).pos(), 8int,
    {
        self.parse_bin(fuel, 5)
    }
}

impl<'a> Parser<'a> {
    fn parse_exprstmt(&mut self, fuel: u64) -> (r: Result<Stmt, Diagnostic>)
        requires
            old(self).wf(),
        ensures
            final(self).wf(),
            final(self).toks() == old(self).toks(),
            old(self).pos() <= final(self).pos(),
            match (r, s_parse_exprstmt(old(self).toks(), old(self).pos(), fuel as nat)) {
                (Result::Ok(st), PRes::Parsed { v, pos }) => st.sview() == v && final(self).pos()
                    == pos && old(self).pos() < pos,
                (Result::Err(d), PRes::Failed { kind, line }) => d@.kind == kind && d@.line == line
                    && d@.phase == Phase::Syntactic,
                _ => false,
            },
        decreases fuel, old(self).toks().len() - old(self).pos(), 9int,
    {
        let toks = self.tokens;
        match self.parse_expr(fuel) {
            Err(d) => Err(d),
            Ok(e) => {
                match &toks[self.pos].0 {
                    Token::Semi => {
                        self.pos = self.pos + 1;
                        Ok(Stmt::ExprStmt(e))
                    },
                    _ => Err(
                        Diagnostic {
                            line: toks[self.pos].1,
                            phase: Phase::Syntactic,
                            kind: DiagKind::ExpectedSemicolon,
                        },
                    ),
                }
            },
        }
    }

    fn parse_var_stmt(&mut self, fuel: u64) -> (r: Result<Stmt, Diagnostic>)
        requires
            old(self).wf(),
            fuel >= 1,
            cur(old(self).toks(), old(self).pos()).0 is Var,
        ensures
            final(self).wf(),
            final(self).toks() == old(self).toks(),
            old(self).pos() <= final(self).pos(),
            match (r, s_parse_var_stmt(old(self).toks(), old(self).pos(), fuel as nat)) {
                (Result::Ok(st), PRes::Parsed { v, pos }) => st.sview() == v && final(self).pos()
                    == pos && old(self).pos() < pos,
                (Result::Err(d), PRes::Failed { kind, line }) => d@.kind == kind && d@.line == line
                    && d@.phase == Phase::Syntactic,
                _ => false,
            },
        decreases fuel, old(self).toks().len() - old(self).pos(), 9int,
    {
        let toks = self.tokens;
        match &toks[self.pos + 1].0 {
            Token::Ident(n) => {
                match &toks[self.pos + 2].0 {
                    Token::Assign => {
                        let name = clone_bytes(n);
                        self.pos = self.pos + 3;
                        match self.parse_expr(fuel) {
                            Err(d) => Err(d),
                            Ok(init) => {
                                match &toks[self.pos].0 {
                                    Token::Semi => {
                                        self.pos = self.pos + 1;
                                        Ok(Stmt::VarDecl { name, init })
                                    },
                                    _ => Err(
                                        Diagnostic {
                                            line: toks[self.pos].1,
                                            phase: Phase::Syntactic,
                                            kind: DiagKind::ExpectedSemicolon,
                                        },
                                    ),
                                }
                            },
                        }
                    },
                    _ => Err(
                        Diagnostic {
                            line: toks[self.pos + 2].1,
                            phase: Phase::Syntactic,
                            kind: DiagKind::ExpectedAssign,
                        },
                    ),
                }
            },
            _ => Err(
                Diagnostic {
                    line: toks[self.pos + 1].1,
                    phase: Phase::Syntactic,
                    kind: DiagKind::ExpectedIdentifier,
                },
            ),
        }
    }

    #[verifier::rlimit(100)]
    #[verifier::spinoff_prover]
    fn parse_if_stmt(&mut self, fuel: u64) -> (r: Result<Stmt, Diagnostic>)
        requires
            old(self).wf(),
            fuel >= 1,
            cur(old(self).toks(), old(self).pos()).0 is If,
        ensures
            final(self).wf(),
            final(self).toks() == old(self).toks(),
            old(self).pos() <= final(self).pos(),
            match (r, s_parse_if_stmt(old(self).toks(), old(self).pos(), fuel as nat)) {
                (Result::Ok(st), PRes::Parsed { v, pos }) => st.sview() == v && final(self).pos()
                    == pos && old(self).pos() < pos,
                (Result::Err(d), PRes::Failed { kind, line }) => d@.kind == kind && d@.line == line
                    && d@.phase == Phase::Syntactic,
                _ => false,
            },
        decreases fuel, old(self).toks().len() - old(self).pos(), 9int,
    {
        let toks = self.tokens;
        match &toks[self.pos + 1].0 {
            Token::LParen => {},
            _ => {
                return Err(
                    Diagnostic {
                        line: toks[self.pos + 1].1,
                        phase: Phase::Syntactic,
                        kind: DiagKind::ExpectedLParen,
                    },
                );
            },
        }
        self.pos = self.pos + 2;
        let cond = match self.parse_expr(fuel) {
            Err(d) => {
                return Err(d);
            },
            Ok(e) => e,
        };
        match &toks[self.pos].0 {
            Token::RParen => {},
            _ => {
                return Err(
                    Diagnostic {
                        line: toks[self.pos].1,
                        phase: Phase::Syntactic,
                        kind: DiagKind::ExpectedRParen,
                    },
                );
            },
        }
        self.pos = self.pos + 1;
        let then_branch = match self.parse_block(fuel - 1) {
            Err(d) => {
                return Err(d);
            },
            Ok(v) => v,
        };
        let has_else = match &toks[self.pos].0 {
            Token::Else => true,
            _ => false,
        };
        if has_else {
            self.pos = self.pos + 1;
            match self.parse_block(fuel - 1) {
                Err(d) => Err(d),
                Ok(els) => Ok(Stmt::If { cond, then_branch, else_branch: Option::Some(els) }),
            }
        } else {
            Ok(Stmt::If { cond, then_branch, else_branch: Option::None })
        }
    }

    fn parse_while_stmt(&mut self, fuel: u64) -> (r: Result<Stmt, Diagnostic>)
        requires
            old(self).wf(),
            fuel >= 1,
            cur(old(self).toks(), old(self).pos()).0 is While,
        ensures
            final(self).wf(),
            final(self).toks() == old(self).toks(),
            old(self).pos() <= final(self).pos(),
            match (r, s_parse_while_stmt(old(self).toks(), old(self).pos(), fuel as nat)) {
                (Result::Ok(st), PRes::Parsed { v, pos }) => st.sview() == v && final(self).pos()
                    == pos && old(self).pos() < pos,
                (Result::Err(d), PRes::Failed { kind, line }) => d@.kind == kind && d@.line == line
                    && d@.phase == Phase::Syntactic,
                _ => false,
            },
        decreases fuel, old(self).toks().len() - old(self).pos(), 9int,
    {
        let toks = self.tokens;
        match &toks[self.pos + 1].0 {
            Token::LParen => {},
            _ => {
                return Err(
                    Diagnostic {
                        line: toks[self.pos + 1].1,
                        phase: Phase::Syntactic,
                        kind: DiagKind::ExpectedLParen,
                    },
                );
            },
        }
        self.pos = self.pos + 2;
        let cond = match self.parse_expr(fuel) {
            Err(d) => {
                return Err(d);
            },
            Ok(e) => e,
        };
        match &toks[self.pos].0 {
            Token::RParen => {},
            _ => {
                return Err(
                    Diagnostic {
                        line: toks[self.pos].1,
                        phase: Phase::Syntactic,
                        kind: DiagKind::ExpectedRParen,
                    },
                );
            },
        }
        self.pos = self.pos + 1;
        match self.parse_block(fuel - 1) {
            Err(d) => Err(d),
            Ok(body) => Ok(Stmt::While { cond, body }),
        }
    }

    fn parse_print_stmt(&mut self, fuel: u64) -> (r: Result<Stmt, Diagnostic>)
        requires
            old(self).wf(),
            fuel >= 1,
            cur(old(self).toks(), old(self).pos()).0 is Print,
        ensures
            final(self).wf(),
            final(self).toks() == old(self).toks(),
            old(self).pos() <= final(self).pos(),
            match (r, s_parse_print_stmt(old(self).toks(), old(self).pos(), fuel as nat)) {
                (Result::Ok(st), PRes::Parsed { v, pos }) => st.sview() == v && final(self).pos()
                    == pos && old(self).pos() < pos,
                (Result::Err(d), PRes::Failed { kind, line }) => d@.kind == kind && d@.line == line
                    && d@.phase == Phase::Syntactic,
                _ => false,
            },
        decreases fuel, old(self).toks().len() - old(self).pos(), 9int,
    {
        let toks = self.tokens;
        proof {
            let ts = self.toks();
            assert(ts[self.pos as int].0 is Print);
            assert(ts[ts.len() - 1].0 is End);
            assert(self.pos + 1 < ts.len());
        }
        self.pos = self.pos + 1;
        match self.parse_expr(fuel) {
            Err(d) => Err(d),
            Ok(e) => {
                match &toks[self.pos].0 {
                    Token::Semi => {
                        self.pos = self.pos + 1;
                        Ok(Stmt::Print(e))
                    },
                    _ => Err(
                        Diagnostic {
                            line: toks[self.pos].1,
                            phase: Phase::Syntactic,
                            kind: DiagKind::ExpectedSemicolon,
                        },
                    ),
                }
            },
        }
    }

    fn parse_assign_stmt(&mut self, fuel: u64) -> (r: Result<Stmt, Diagnostic>)
        requires
            old(self).wf(),
            fuel >= 1,
            cur(old(self).toks(), old(self).pos()).0 is Ident,
            cur(old(self).toks(), old(self).pos() + 1).0 is Assign,
        ensures
            final(self).wf(),
            final(self).toks() == old(self).toks(),
            old(self).pos() <= final(self).pos(),
            match (r, s_parse_assign_stmt(old(self).toks(), old(self).pos(), fuel as nat)) {
                (Result::Ok(st), PRes::Parsed { v, pos }) => st.sview() == v && final(self).pos()
                    == pos && old(self).pos() < pos,
                (Result::Err(d), PRes::Failed { kind, line }) => d@.kind == kind && d@.line == line
                    && d@.phase == Phase::Syntactic,
                _ => false,
            },
        decreases fuel, old(self).toks().len() - old(self).pos(), 9int,
    {
        let toks = self.tokens;
        match &toks[self.pos].0 {
            Token::Ident(n) => {
                let name = clone_bytes(n);
                self.pos = self.pos + 2;
                match self.parse_expr(fuel) {
                    Err(d) => Err(d),
                    Ok(value) => {
                        match &toks[self.pos].0 {
                            Token::Semi => {
                                self.pos = self.pos + 1;
                                Ok(Stmt::Assign { name, value })
                            },
                            _ => Err(
                                Diagnostic {
                                    line: toks[self.pos].1,
                                    phase: Phase::Syntactic,
                                    kind: DiagKind::ExpectedSemicolon,
                                },
                            ),
                        }
                    },
                }
            },
            _ => Err(
                Diagnostic {
                    line: toks[self.pos].1,
                    phase: Phase::Syntactic,
                    kind: DiagKind::ExpectedExpression,
                },
            ),
        }
    }

    fn parse_stmt(&mut self, fuel: u64) -> (r: Result<Stmt, Diagnostic>)
        requires
            old(self).wf(),
        ensures
            final(self).wf(),
            final(self).toks() == old(self).toks(),
            old(self).pos() <= final(self).pos(),
            match (r, s_parse_stmt(old(self).toks(), old(self).pos(), fuel as nat)) {
                (Result::Ok(st), PRes::Parsed { v, pos }) => st.sview() == v && final(self).pos()
                    == pos && old(self).pos() < pos,
                (Result::Err(d), PRes::Failed { kind, line }) => d@.kind == kind && d@.line == line
                    && d@.phase == Phase::Syntactic,
                _ => false,
            },
        decreases fuel, old(self).toks().len() - old(self).pos(), 10int,
    {
        let toks = self.tokens;
        let ln = toks[self.pos].1;
        if fuel == 0 {
            return Err(Diagnostic { line: ln, phase: Phase::Syntactic, kind: DiagKind::DepthExceeded });
        }
        match &toks[self.pos].0 {
            Token::Var => self.parse_var_stmt(fuel),
            Token::If => self.parse_if_stmt(fuel),
            Token::While => self.parse_while_stmt(fuel),
            Token::LBrace => {
                match self.parse_block(fuel - 1) {
                    Err(d) => Err(d),
                    Ok(v) => Ok(Stmt::Block(v)),
                }
            },
            Token::Print => self.parse_print_stmt(fuel),
            Token::Ident(_) => {
                let is_assign = match &toks[self.pos + 1].0 {
                    Token::Assign => true,
                    _ => false,
                };
                if is_assign {
                    self.parse_assign_stmt(fuel)
                } else {
                    self.parse_exprstmt(fuel)
                }
            },
            _ => self.parse_exprstmt(fuel),
        }
    }

    fn parse_items(&mut self, fuel: u64) -> (r: Result<Vec<Stmt>, Diagnostic>)
        requires
            old(self).wf(),
        ensures
            final(self).wf(),
            final(self).toks() == old(self).toks(),
            old(self).pos() <= final(self).pos(),
            match (r, s_parse_items(old(self).toks(), old(self).pos(), fuel as nat)) {
                (Result::Ok(v), PRes::Parsed { v: sv, pos }) => stmts_sview(v@) == sv && final(self).pos() == pos,
                (Result::Err(d), PRes::Failed { kind, line }) => d@.kind == kind && d@.line == line
                    && d@.phase == Phase::Syntactic,
                _ => false,
            },
        decreases fuel, old(self).toks().len() - old(self).pos(), 11int,
    {
        let ghost ts = old(self).toks();
        let ghost p0 = old(self).pos();
        let mut out: Vec<Stmt> = Vec::new();
        proof {
            assert(stmts_sview(out@) =~= Seq::<StmtS>::empty());
        }
        loop
            invariant
                self.wf(),
                self.toks() == ts,
                ts == old(self).toks(),
                p0 == old(self).pos(),
                p0 <= self.pos(),
                match (s_parse_items(ts, p0, fuel as nat), s_parse_items(
                    ts,
                    self.pos(),
                    fuel as nat,
                )) {
                    (PRes::Parsed { v: v0, pos: e0 }, PRes::Parsed { v: v1, pos: e1 }) => v0
                        == stmts_sview(out@) + v1 && e0 == e1,
                    (
                        PRes::Failed { kind: k0, line: l0 },
                        PRes::Failed { kind: k1, line: l1 },
                    ) => k0 == k1 && l0 == l1,
                    _ => false,
                },
            decreases ts.len() - self.pos(),
        {
            let ghost pp = self.pos();
            let toks = self.tokens;
            let stop = match &toks[self.pos].0 {
                Token::RBrace => true,
                Token::End => true,
                _ => false,
            };
            if stop {
                proof {
                    assert(stmts_sview(out@) + Seq::<StmtS>::empty() =~= stmts_sview(out@));
                }
                return Ok(out);
            }
            match self.parse_stmt(fuel) {
                Err(d) => {
                    return Err(d);
                },
                Ok(st) => {
                    let ghost prev = out@;
                    out.push(st);
                    proof {
                        crate::ast::lemma_stmts_sview_push(prev, st);
                        match s_parse_items(ts, self.pos(), fuel as nat) {
                            PRes::Parsed { v: v1, pos: e1 } => {
                                assert(s_parse_items(ts, pp, fuel as nat) == PRes::Parsed {
                                    v: seq![st.sview()] + v1,
                                    pos: e1,
                                });
                                assert(stmts_sview(prev) + (seq![st.sview()] + v1) =~= stmts_sview(
                                    out@,
                                ) + v1);
                            },
                            PRes::Failed { kind, line } => {},
                        }
                    }
                },
            }
        }
    }

    fn parse_block(&mut self, fuel: u64) -> (r: Result<Vec<Stmt>, Diagnostic>)
        requires
            old(self).wf(),
        ensures
            final(self).wf(),
            final(self).toks() == old(self).toks(),
            old(self).pos() <= final(self).pos(),
            match (r, s_parse_block(old(self).toks(), old(self).pos(), fuel as nat)) {
                (Result::Ok(v), PRes::Parsed { v: sv, pos }) => stmts_sview(v@) == sv && final(self).pos() == pos && old(self).pos() < pos,
                (Result::Err(d), PRes::Failed { kind, line }) => d@.kind == kind && d@.line == line
                    && d@.phase == Phase::Syntactic,
                _ => false,
            },
        decreases fuel, old(self).toks().len() - old(self).pos(), 12int,
    {
        let toks = self.tokens;
        match &toks[self.pos].0 {
            Token::LBrace => {},
            _ => {
                return Err(
                    Diagnostic {
                        line: toks[self.pos].1,
                        phase: Phase::Syntactic,
                        kind: DiagKind::ExpectedLBrace,
                    },
                );
            },
        }
        self.pos = self.pos + 1;
        match self.parse_items(fuel) {
            Err(d) => Err(d),
            Ok(items) => {
                match &toks[self.pos].0 {
                    Token::RBrace => {
                        self.pos = self.pos + 1;
                        Ok(items)
                    },
                    _ => Err(
                        Diagnostic {
                            line: toks[self.pos].1,
                            phase: Phase::Syntactic,
                            kind: DiagKind::ExpectedRBrace,
                        },
                    ),
                }
            },
        }
    }

    /// Parse the whole token stream into the ordered top-level statement
    /// sequence, or fail with the first syntactic diagnostic — exactly the
    /// parse that `s_parse_program` describes. No statement is fabricated
    /// from nothing: the statement count never exceeds the tokens consumed.
    pub fn parse(&mut self) -> (r: Result<Vec<Stmt>, Diagnostic>)
        requires
            old(self).wf(),
        ensures
            final(self).wf(),
            final(self).toks() == old(self).toks(),
            old(self).pos() <= final(self).pos(),
            match (r, s_parse_program(old(self).toks(), old(self).pos())) {
                (Result::Ok(v), PRes::Parsed { v: sv, pos }) => stmts_sview(v@) == sv && final(self).pos() == pos && v@.len() + old(self).pos() <= pos,
                (Result::Err(d), PRes::Failed { kind, line }) => d@.kind == kind && d@.line == line
                    && d@.phase == Phase::Syntactic,
                _ => false,
            },
    {
        let ghost ts = old(self).toks();
        let ghost p0 = old(self).pos();
        let mut out: Vec<Stmt> = Vec::new();
        proof {
            assert(stmts_sview(out@) =~= Seq::<StmtS>::empty());
        }
        loop
            invariant
                self.wf(),
                self.toks() == ts,
                ts == old(self).toks(),
                p0 == old(self).pos(),
                p0 <= self.pos(),
                out@.len() + p0 <= self.pos(),
                match (s_parse_program(ts, p0), s_parse_program(ts, self.pos())) {
                    (PRes::Parsed { v: v0, pos: e0 }, PRes::Parsed { v: v1, pos: e1 }) => v0
                        == stmts_sview(out@) + v1 && v0.len() == out@.len() + v1.len() && e0 == e1,
                    (
                        PRes::Failed { kind: k0, line: l0 },
                        PRes::Failed { kind: k1, line: l1 },
                    ) => k0 == k1 && l0 == l1,
                    _ => false,
                },
            decreases ts.len() - self.pos(),
        {
            let ghost pp = self.pos();
            let toks = self.tokens;
            let stop = match &toks[self.pos].0 {
                Token::End => true,
                _ => false,
            };
            if stop {
                proof {
                    assert(stmts_sview(out@) + Seq::<StmtS>::empty() =~= stmts_sview(out@));
                }
                return Ok(out);
            }
            match self.parse_stmt(MAX_DEPTH) {
                Err(d) => {
                    return Err(d);
                },
                Ok(st) => {
                    let ghost prev = out@;
                    out.push(st);
                    proof {
                        crate::ast::lemma_stmts_sview_push(prev, st);
                        match s_parse_program(ts, self.pos()) {
                            PRes::Parsed { v: v1, pos: e1 } => {
                                assert(s_parse_program(ts, pp) == PRes::Parsed {
                                    v: seq![st.sview()] + v1,
                                    pos: e1,
                                });
                                assert(stmts_sview(prev) + (seq![st.sview()] + v1) =~= stmts_sview(
                                    out@,
                                ) + v1);
                            },
                            PRes::Failed { kind, line } => {},
                        }
                    }
                },
            }
        }
    }
}

/// Parsing is a pure function of the token stream: re-invoking the parse on
/// the same stream from the start yields the same statement sequence, or the
/// same diagnostic — there is no hidden retry state. Together with the
/// contract of `Parser::parse`, which pins its result to `s_parse_program`
/// alone, any two parses of equal streams agree.
pub proof fn lemma_parse_idempotent(ts1: Seq<(Tok, int)>, ts2: Seq<(Tok, int)>)
    requires
        ts1 == ts2,
    ensures
        s_parse_program(ts1, 0) == s_parse_program(ts2, 0),
{
}

} // verus!
