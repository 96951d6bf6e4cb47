use vstd::prelude::*;

verus! {

/// Unary operators; they bind tighter than any binary operator.
#[derive(Debug, Clone, Copy, PartialEq, Eq, Structural)]
pub enum UnOp {
    /// Arithmetic negation, `-`.
    Neg,
    /// Logical negation, `!`.
    Not,
}

/// Binary operators, ordered by the fixed precedence table (lowest first):
/// logical or, logical and, equality, relational, additive, multiplicative.
/// All are left-associative.
#[derive(Debug, Clone, Copy, PartialEq, Eq, Structural)]
pub enum BinOp {
    Or,
    And,
    Equal,
    NotEqual,
    Less,
    Greater,
    LessEq,
    GreaterEq,
    Add,
    Sub,
    Mul,
    Div,
}

/// An expression node. The tree is acyclic and exclusively owned top-down.
#[derive(Debug, PartialEq, Eq)]
pub enum Expr {
    /// An integer literal with its decoded value.
    IntLit(u64),
    /// A floating literal: integer part, fraction-digit value, fraction-digit count.
    FloatLit(u64, u64, u64),
    /// A string literal's decoded contents.
    StrLit(Vec<u8>),
    /// A boolean literal.
    BoolLit(bool),
    /// A variable reference by name.
    Var(Vec<u8>),
    /// A unary operation.
    Unary(UnOp, Box<Expr>),
    /// A binary operation.
    Binary(BinOp, Box<Expr>, Box<Expr>),
    /// A parenthesized grouping, kept explicit in the tree.
    Group(Box<Expr>),
}

/// A statement node. A block exclusively owns its child statements.
#[derive(Debug, PartialEq, Eq)]
pub enum Stmt {
    /// `var name = init ;`
    VarDecl { name: Vec<u8>, init: Expr },
    /// `name = value ;`
    Assign { name: Vec<u8>, value: Expr },
    /// `if ( cond ) { .. } else { .. }`, the else branch optional.
    If { cond: Expr, then_branch: Vec<Stmt>, else_branch: Option<Vec<Stmt>> },
    /// `while ( cond ) { .. }`
    While { cond: Expr, body: Vec<Stmt> },
    /// A braced block with its own lexical scope.
    Block(Vec<Stmt>),
    /// `print expr ;`
    Print(Expr),
    /// A bare expression statement, `expr ;`.
    ExprStmt(Expr),
}

/// The mathematical model of an expression: `Expr` with byte vectors
/// abstracted to sequences.
pub enum ExprS {
    IntLit(u64),
    FloatLit(u64, u64, u64),
    StrLit(Seq<u8>),
    BoolLit(bool),
    Var(Seq<u8>),
    Unary(UnOp, Box<ExprS>),
    Binary(BinOp, Box<ExprS>, Box<ExprS>),
    Group(Box<ExprS>),
}

/// The mathematical model of a statement.
pub enum StmtS {
    VarDecl { name: Seq<u8>, init: ExprS },
    Assign { name: Seq<u8>, value: ExprS },
    If { cond: ExprS, then_branch: Seq<StmtS>, else_branch: Option<Seq<StmtS>> },
    While { cond: ExprS, body: Seq<StmtS> },
    Block(Seq<StmtS>),
    Print(ExprS),
    ExprStmt(ExprS),
}

impl Expr {
    /// The model of this expression.
    pub open spec fn sview(&self) -> ExprS
        decreases self,
    {
        match self {
            Expr::IntLit(v) => ExprS::IntLit(*v),
            Expr::FloatLit(a, b, c) => ExprS::FloatLit(*a, *b, *c),
            Expr::StrLit(b) => ExprS::StrLit(b@),
            Expr::BoolLit(b) => ExprS::BoolLit(*b),
            Expr::Var(n) => ExprS::Var(n@),
            Expr::Unary(op, e) => ExprS::Unary(*op, Box::new((**e).sview())),
            Expr::Binary(op, l, r) => ExprS::Binary(
                *op,
                Box::new((**l).sview()),
                Box::new((**r).sview()),
            ),
            Expr::Group(e) => ExprS::Group(Box::new((**e).sview())),
        }
    }
}

/// The model of a statement list, element by element.
pub open spec fn stmts_sview(s: Seq<Stmt>) -> Seq<StmtS>
    decreases s,
    via stmts_sview_decreases
{
    if s.len() == 0 {
        Seq::empty()
    } else {
        stmts_sview(s.drop_last()).push(s.last().sview())
    }
}

#[via_fn]
proof fn stmts_sview_decreases(s: Seq<Stmt>) {
    if s.len() > 0 {
        vstd::seq::axiom_seq_index_decreases(s, s.len() - 1);
        vstd::seq::axiom_seq_subrange_decreases(s, 0, s.len() - 1);
        assert(s.drop_last() == s.subrange(0, s.len() - 1));
    }
}

impl Stmt {
    /// The model of this statement.
    pub open spec fn sview(&self) -> StmtS
        decreases self,
        via Self::sview_decreases
    {
        match self {
            Stmt::VarDecl { name, init } => StmtS::VarDecl { name: name@, init: init.sview() },
            Stmt::Assign { name, value } => StmtS::Assign { name: name@, value: value.sview() },
            Stmt::If { cond, then_branch, else_branch } => StmtS::If {
                cond: cond.sview(),
                then_branch: stmts_sview(then_branch@),
                else_branch: match else_branch {
                    Option::Some(v) => Option::Some(stmts_sview(v@)),
                    Option::None => Option::None,
                },
            },
            Stmt::While { cond, body } => StmtS::While {
                cond: cond.sview(),
                body: stmts_sview(body@),
            },
            Stmt::Block(v) => StmtS::Block(stmts_sview(v@)),
            Stmt::Print(e) => StmtS::Print(e.sview()),
            Stmt::ExprStmt(e) => StmtS::ExprStmt(e.sview()),
        }
    }

    #[via_fn]
    proof fn sview_decreases(&self) {
        match self {
            Stmt::If { cond, then_branch, else_branch } => {
                assert(decreases_to!(self => then_branch));
                vstd::std_specs::vec::axiom_vec_decreases_to_view(*then_branch);
                match else_branch {
                    Option::Some(v) => {
                        assert(decreases_to!(self => else_branch));
                        assert(decreases_to!(else_branch => v));
                        vstd::std_specs::vec::axiom_vec_decreases_to_view(*v);
                    },
                    Option::None => {},
                }
            },
            Stmt::While { cond, body } => {
                assert(decreases_to!(self => body));
                vstd::std_specs::vec::axiom_vec_decreases_to_view(*body);
            },
            Stmt::Block(v) => {
                assert(decreases_to!(self => v));
                vstd::std_specs::vec::axiom_vec_decreases_to_view(*v);
            },
            _ => {},
        }
    }
}

/// Pushing one statement extends the list's model by that statement's model.
pub proof fn lemma_stmts_sview_push(s: Seq<Stmt>, x: Stmt)
    ensures
        stmts_sview(s.push(x)) == stmts_sview(s).push(x.sview()),
{
    assert(s.push(x).drop_last() =~= s);
    assert(s.push(x).last() == x);
}

} // verus!
