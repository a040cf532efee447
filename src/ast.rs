use vstd::prelude::*;
use crate::location::SrcLocation;
use crate::number::Number;
use crate::token::Token;

verus! {

/// A statement. Each carries the location of the token that defines it.
#[derive(Debug)]
pub enum Stmt {
    Print(Expr, SrcLocation),
    Expr(Expr, SrcLocation),
    Var(Token, Option<Expr>, SrcLocation),
    Block(Vec<Stmt>, SrcLocation),
    If(Expr, Box<Stmt>, Option<Box<Stmt>>, SrcLocation),
}

/// An expression. Each owns its sub-expressions.
#[derive(Debug)]
pub enum Expr {
    Binary(BinaryData),
    Grouping(Box<Expr>, SrcLocation),
    Unary(UnaryData),
    Literal(LiteralData),
    Variable(Token, SrcLocation),
    Assign(Token, Box<Expr>, SrcLocation),
    Logical(Box<Expr>, LogicalOp, Box<Expr>, SrcLocation),
}

#[derive(Clone, Debug)]
pub enum LiteralData {
    String(String, SrcLocation),
    Number(Number, SrcLocation),
    Bool(bool, SrcLocation),
    Nil(SrcLocation),
}

#[derive(Debug)]
pub struct UnaryData {
    pub operator: UnaryOp,
    pub expr: Box<Expr>,
    pub location: SrcLocation,
}

#[derive(Clone, Copy, Debug, PartialEq, Eq, Structural)]
pub enum UnaryOp {
    Bang(SrcLocation),
    Minus(SrcLocation),
}

#[derive(Debug)]
pub struct BinaryData {
    pub operator: BinaryOp,
    pub left: Box<Expr>,
    pub right: Box<Expr>,
    pub location: SrcLocation,
}

#[derive(Clone, Copy, Debug, PartialEq, Eq, Structural)]
pub enum BinaryOp {
    BangEqual(SrcLocation),
    EqualEqual(SrcLocation),
    Greater(SrcLocation),
    GreaterEqual(SrcLocation),
    Less(SrcLocation),
    LessEqual(SrcLocation),
    Plus(SrcLocation),
    Minus(SrcLocation),
    Div(SrcLocation),
    Mul(SrcLocation),
}

#[derive(Clone, Copy, Debug, PartialEq, Eq, Structural)]
pub enum LogicalOp {
    And(SrcLocation),
    Or(SrcLocation),
}

/// What a statement is, with each block's statements as a sequence.
pub enum StmtView {
    Print(Expr, SrcLocation),
    Expr(Expr, SrcLocation),
    Var(Token, Option<Expr>, SrcLocation),
    Block(Seq<StmtView>, SrcLocation),
    If(Expr, Box<StmtView>, Option<Box<StmtView>>, SrcLocation),
}

pub open spec fn stmt_view(s: Stmt) -> StmtView
    decreases s,
{
    match s {
        Stmt::Print(e, l) => StmtView::Print(e, l),
        Stmt::Expr(e, l) => StmtView::Expr(e, l),
        Stmt::Var(t, init, l) => StmtView::Var(t, init, l),
        Stmt::Block(v, l) => StmtView::Block(stmts_view(v@), l),
        Stmt::If(c, t, e, l) => StmtView::If(
            c,
            Box::new(stmt_view(*t)),
            match e {
                Some(b) => Some(Box::new(stmt_view(*b))),
                None => None,
            },
            l,
        ),
    }
}

pub open spec fn stmts_view(ss: Seq<Stmt>) -> Seq<StmtView>
    decreases ss,
{
    if ss.len() == 0 {
        Seq::empty()
    } else {
        stmts_view(ss.drop_last()).push(stmt_view(ss.last()))
    }
}

impl View for Stmt {
    type V = StmtView;

    open spec fn view(&self) -> StmtView {
        stmt_view(*self)
    }
}

pub open spec fn literal_location(l: LiteralData) -> SrcLocation {
    match l {
        LiteralData::String(_, loc) => loc,
        LiteralData::Number(_, loc) => loc,
        LiteralData::Bool(_, loc) => loc,
        LiteralData::Nil(loc) => loc,
    }
}

pub open spec fn expr_location(e: Expr) -> SrcLocation {
    match e {
        Expr::Binary(b) => b.location,
        Expr::Grouping(_, loc) => loc,
        Expr::Unary(u) => u.location,
        Expr::Literal(l) => literal_location(l),
        Expr::Variable(_, loc) => loc,
        Expr::Assign(_, _, loc) => loc,
        Expr::Logical(_, _, _, loc) => loc,
    }
}

pub open spec fn binary_op_location(op: BinaryOp) -> SrcLocation {
    match op {
        BinaryOp::BangEqual(l) => l,
        BinaryOp::EqualEqual(l) => l,
        BinaryOp::Greater(l) => l,
        BinaryOp::GreaterEqual(l) => l,
        BinaryOp::Less(l) => l,
        BinaryOp::LessEqual(l) => l,
        BinaryOp::Plus(l) => l,
        BinaryOp::Minus(l) => l,
        BinaryOp::Div(l) => l,
        BinaryOp::Mul(l) => l,
    }
}

impl LiteralData {
    pub fn location(&self) -> (r: SrcLocation)
        ensures
            r == literal_location(*self),
    {
        match self {
            LiteralData::String(_, loc) => *loc,
            LiteralData::Number(_, loc) => *loc,
            LiteralData::Bool(_, loc) => *loc,
            LiteralData::Nil(loc) => *loc,
        }
    }
}

impl Expr {
    pub fn location(&self) -> (r: SrcLocation)
        ensures
            r == expr_location(*self),
    {
        match self {
            Expr::Binary(b) => b.location,
            Expr::Grouping(_, loc) => *loc,
            Expr::Unary(u) => u.location,
            Expr::Literal(l) => l.location(),
            Expr::Variable(_, loc) => *loc,
            Expr::Assign(_, _, loc) => *loc,
            Expr::Logical(_, _, _, loc) => *loc,
        }
    }
}

impl BinaryOp {
    pub fn location(&self) -> (r: SrcLocation)
        ensures
            r == binary_op_location(*self),
    {
        match self {
            BinaryOp::BangEqual(l) => *l,
            BinaryOp::EqualEqual(l) => *l,
            BinaryOp::Greater(l) => *l,
            BinaryOp::GreaterEqual(l) => *l,
            BinaryOp::Less(l) => *l,
            BinaryOp::LessEqual(l) => *l,
            BinaryOp::Plus(l) => *l,
            BinaryOp::Minus(l) => *l,
            BinaryOp::Div(l) => *l,
            BinaryOp::Mul(l) => *l,
        }
    }
}

} // verus!
