use vstd::prelude::*;
use crate::ast::{
    expr_location, stmts_view, BinaryData, BinaryOp, Expr, LiteralData, LogicalOp, Stmt, StmtView,
    UnaryData, UnaryOp,
};
use crate::error::{Diag, RutoxError};
use crate::location::SrcLocation;
use crate::text::push_str;
use crate::token::{token_text, Token, TokenKind};

verus! {

/// Precedence levels of the binary operators, loosest last.
pub const FACTOR: usize = 1;
pub const TERM: usize = 2;
pub const COMPARISON: usize = 3;
pub const EQUALITY: usize = 4;
pub const AND: usize = 5;
pub const OR: usize = 6;

pub open spec fn at_end(ts: Seq<Token>, p: int) -> bool {
    p >= ts.len() || ts[p].kind == TokenKind::Eof
}

/// Whether the token at `p` exists and has kind `k`.
pub open spec fn check(ts: Seq<Token>, p: int, k: TokenKind) -> bool {
    0 <= p < ts.len() && ts[p].kind == k
}

/// The location of the token before `p`; the start of the text when there
/// is none.
pub open spec fn prev_loc(ts: Seq<Token>, p: int) -> SrcLocation {
    if 1 <= p <= ts.len() {
        ts[p - 1].location
    } else {
        SrcLocation { line: 1, col: 0 }
    }
}

/// The location of the token at `p`, or of the last one when input is
/// exhausted.
pub open spec fn cur_loc(ts: Seq<Token>, p: int) -> SrcLocation {
    if 0 <= p < ts.len() {
        ts[p].location
    } else {
        prev_loc(ts, p)
    }
}

/// Whether a parse that started at `p` and stopped at `q` moved forward
/// within the tokens. The grammar functions below test it (or `p <= q`)
/// before they recurse, which bounds the recursion. A successful parse
/// always reads a token, so the test holds wherever it is made: the
/// `Parser` methods prove as much before they take the recursive branch.
pub open spec fn moved(ts: Seq<Token>, p: int, q: int) -> bool {
    p < q <= ts.len()
}

pub open spec fn p_expect(ts: Seq<Token>, p: int, k: TokenKind, msg: Seq<char>) -> (
    Result<(), Diag>,
    int,
) {
    if check(ts, p, k) {
        (Ok(()), p + 1)
    } else {
        (Err(Diag::Syntax(msg, cur_loc(ts, p))), p)
    }
}

/// Whether `k` is an operator of the given precedence level.
pub open spec fn level_has(level: nat, k: TokenKind) -> bool {
    if level == FACTOR {
        k == TokenKind::Slash || k == TokenKind::Star
    } else if level == TERM {
        k == TokenKind::Minus || k == TokenKind::Plus
    } else if level == COMPARISON {
        k == TokenKind::Greater || k == TokenKind::GreaterEqual || k == TokenKind::Less || k
            == TokenKind::LessEqual
    } else if level == EQUALITY {
        k == TokenKind::BangEqual || k == TokenKind::EqualEqual
    } else if level == AND {
        k == TokenKind::And
    } else {
        k == TokenKind::Or
    }
}

pub open spec fn binary_op_of(k: TokenKind, l: SrcLocation) -> BinaryOp {
    if k == TokenKind::BangEqual {
        BinaryOp::BangEqual(l)
    } else if k == TokenKind::EqualEqual {
        BinaryOp::EqualEqual(l)
    } else if k == TokenKind::Greater {
        BinaryOp::Greater(l)
    } else if k == TokenKind::GreaterEqual {
        BinaryOp::GreaterEqual(l)
    } else if k == TokenKind::Less {
        BinaryOp::Less(l)
    } else if k == TokenKind::LessEqual {
        BinaryOp::LessEqual(l)
    } else if k == TokenKind::Plus {
        BinaryOp::Plus(l)
    } else if k == TokenKind::Minus {
        BinaryOp::Minus(l)
    } else if k == TokenKind::Slash {
        BinaryOp::Div(l)
    } else {
        BinaryOp::Mul(l)
    }
}

/// The node that joins two operands with the operator token `op`.
pub open spec fn join(level: nat, left: Expr, op: Token, right: Expr) -> Expr {
    if level >= AND {
        Expr::Logical(
            Box::new(left),
            if op.kind == TokenKind::And {
                LogicalOp::And(op.location)
            } else {
                LogicalOp::Or(op.location)
            },
            Box::new(right),
            op.location,
        )
    } else {
        Expr::Binary(
            BinaryData {
                operator: binary_op_of(op.kind, op.location),
                left: Box::new(left),
                right: Box::new(right),
                location: op.location,
            },
        )
    }
}

/// `primary → literal | identifier | "(" expression ")"`
pub open spec fn p_primary(ts: Seq<Token>, p: int) -> (Result<Expr, Diag>, int)
    decreases ts.len() - p, 0int,
{
    if p < 0 || at_end(ts, p) {
        (Err(Diag::Syntax("Unexpected end of input"@, prev_loc(ts, p))), p)
    } else {
        let t = ts[p];
        let l = t.location;
        if t.kind == TokenKind::True || t.kind == TokenKind::False {
            (Ok(Expr::Literal(LiteralData::Bool(t.kind == TokenKind::True, l))), p + 1)
        } else if t.kind == TokenKind::Number {
            (Ok(Expr::Literal(LiteralData::Number(t.number, l))), p + 1)
        } else if t.kind == TokenKind::String {
            (Ok(Expr::Literal(LiteralData::String(t.text, l))), p + 1)
        } else if t.kind == TokenKind::Nil {
            (Ok(Expr::Literal(LiteralData::Nil(l))), p + 1)
        } else if t.kind == TokenKind::Identifier {
            (Ok(Expr::Variable(t, l)), p + 1)
        } else if t.kind == TokenKind::LParen {
            let (r, q) = p_expression(ts, p + 1);
            match r {
                Ok(e) => match p_expect(ts, q, TokenKind::RParen, "Expect `)` after expression"@) {
                    (Ok(_), q2) => (Ok(Expr::Grouping(Box::new(e), l)), q2),
                    (Err(d), q2) => (Err(d), q2),
                },
                Err(d) => (Err(d), q),
            }
        } else {
            (Err(Diag::Syntax("Expect expression, got `"@ + token_text(t) + "`"@, l)), p + 1)
        }
    }
}

/// `unary → ("!" | "-") unary | primary`
pub open spec fn p_unary(ts: Seq<Token>, p: int) -> (Result<Expr, Diag>, int)
    decreases ts.len() - p, 1int,
{
    if check(ts, p, TokenKind::Bang) || check(ts, p, TokenKind::Minus) {
        let t = ts[p];
        let (r, q) = p_unary(ts, p + 1);
        match r {
            Ok(e) => (
                Ok(
                    Expr::Unary(
                        UnaryData {
                            operator: if t.kind == TokenKind::Bang {
                                UnaryOp::Bang(t.location)
                            } else {
                                UnaryOp::Minus(t.location)
                            },
                            expr: Box::new(e),
                            location: t.location,
                        },
                    ),
                ),
                q,
            ),
            Err(d) => (Err(d), q),
        }
    } else {
        p_primary(ts, p)
    }
}

/// An operand of a binary level: the next tighter level.
pub open spec fn p_operand(ts: Seq<Token>, p: int, level: nat) -> (Result<Expr, Diag>, int)
    decreases ts.len() - p, 3 * level + 2,
{
    if level <= FACTOR {
        p_unary(ts, p)
    } else {
        p_binary(ts, p, (level - 1) as nat)
    }
}

/// `level → operand (op operand)*`, folded to the left.
pub open spec fn p_binary(ts: Seq<Token>, p: int, level: nat) -> (Result<Expr, Diag>, int)
    decreases ts.len() - p, 3 * level + 4,
{
    if level < FACTOR {
        p_unary(ts, p)
    } else {
        let (r, q) = p_operand(ts, p, level);
        match r {
            Ok(e) => if p <= q <= ts.len() {
                p_binary_rest(ts, q, e, level)
            } else {
                (Ok(e), q)
            },
            Err(d) => (Err(d), q),
        }
    }
}

/// The operators and operands that follow `left` on one level.
pub open spec fn p_binary_rest(ts: Seq<Token>, p: int, left: Expr, level: nat) -> (
    Result<Expr, Diag>,
    int,
)
    decreases ts.len() - p, 3 * level + 3,
{
    if 0 <= p < ts.len() && level_has(level, ts[p].kind) && level >= FACTOR {
        let op = ts[p];
        let (r, q) = p_operand(ts, p + 1, level);
        match r {
            Ok(right) => if moved(ts, p, q) {
                p_binary_rest(ts, q, join(level, left, op, right), level)
            } else {
                (Ok(join(level, left, op, right)), q)
            },
            Err(d) => (Err(d), q),
        }
    } else {
        (Ok(left), p)
    }
}

/// `assignment → identifier "=" assignment | or`
pub open spec fn p_assignment(ts: Seq<Token>, p: int) -> (Result<Expr, Diag>, int)
    decreases ts.len() - p, 30int,
{
    let (r, q) = p_binary(ts, p, OR as nat);
    match r {
        Ok(e) => if check(ts, q, TokenKind::Equal) && p <= q {
            let op = ts[q];
            let (rv, q2) = p_assignment(ts, q + 1);
            match rv {
                Ok(v) => match e {
                    Expr::Variable(name, _) => (Ok(Expr::Assign(name, Box::new(v), op.location)), q2),
                    _ => (
                        Err(
                            Diag::Syntax(
                                "Expect assignment target to be a variable"@,
                                expr_location(e),
                            ),
                        ),
                        q2,
                    ),
                },
                Err(d) => (Err(d), q2),
            }
        } else {
            (Ok(e), q)
        },
        Err(d) => (Err(d), q),
    }
}

pub open spec fn p_expression(ts: Seq<Token>, p: int) -> (Result<Expr, Diag>, int)
    decreases ts.len() - p, 31int,
{
    p_assignment(ts, p)
}

/// `exprStmt → expression ";"`
pub open spec fn p_expression_statement(ts: Seq<Token>, p: int) -> (Result<StmtView, Diag>, int)
    decreases ts.len() - p, 32int,
{
    let (r, q) = p_expression(ts, p);
    match r {
        Ok(e) => match p_expect(ts, q, TokenKind::Semicolon, "Expect `;` after expression"@) {
            (Ok(_), q2) => (Ok(StmtView::Expr(e, expr_location(e))), q2),
            (Err(d), q2) => (Err(d), q2),
        },
        Err(d) => (Err(d), q),
    }
}

/// `printStmt → "print" expression ";"`, from after the keyword.
pub open spec fn p_print_statement(ts: Seq<Token>, p: int) -> (Result<StmtView, Diag>, int)
    decreases ts.len() - p, 32int,
{
    let (r, q) = p_expression(ts, p);
    match r {
        Ok(e) => match p_expect(ts, q, TokenKind::Semicolon, "Expect `;` after print value"@) {
            (Ok(_), q2) => (Ok(StmtView::Print(e, prev_loc(ts, q2))), q2),
            (Err(d), q2) => (Err(d), q2),
        },
        Err(d) => (Err(d), q),
    }
}

/// `varDecl → "var" identifier ("=" expression)? ";"`, from after the
/// keyword.
pub open spec fn p_var_declaration(ts: Seq<Token>, p: int) -> (Result<StmtView, Diag>, int)
    decreases ts.len() - p, 32int,
{
    let var_loc = prev_loc(ts, p);
    if p < 0 || at_end(ts, p) {
        (Err(Diag::Syntax("Expect variable name, got EOF"@, var_loc)), p)
    } else if ts[p].kind != TokenKind::Identifier {
        (Err(Diag::Syntax("Expect variable name, got "@ + token_text(ts[p]), ts[p].location)), p + 1)
    } else {
        let name = ts[p];
        if check(ts, p + 1, TokenKind::Equal) {
            let (r, q) = p_expression(ts, p + 2);
            match r {
                Ok(e) => match p_expect(
                    ts,
                    q,
                    TokenKind::Semicolon,
                    "Expect semicolon after declaration"@,
                ) {
                    (Ok(_), q2) => (Ok(StmtView::Var(name, Some(e), ts[p + 1].location)), q2),
                    (Err(d), q2) => (Err(d), q2),
                },
                Err(d) => (Err(d), q),
            }
        } else {
            match p_expect(ts, p + 1, TokenKind::Semicolon, "Expect semicolon after declaration"@) {
                (Ok(_), q2) => (Ok(StmtView::Var(name, None, var_loc)), q2),
                (Err(d), q2) => (Err(d), q2),
            }
        }
    }
}

/// `ifStmt → "if" "(" expression ")" statement ("else" statement)?`, from
/// after the keyword.
pub open spec fn p_if_statement(ts: Seq<Token>, p: int) -> (Result<StmtView, Diag>, int)
    decreases ts.len() - p, 32int,
{
    let if_loc = prev_loc(ts, p);
    match p_expect(ts, p, TokenKind::LParen, "Expect `(` after `if`"@) {
        (Err(d), q) => (Err(d), q),
        (Ok(_), q) => {
            let (rc, q1) = p_expression(ts, q);
            match rc {
                Err(d) => (Err(d), q1),
                Ok(c) => match p_expect(ts, q1, TokenKind::RParen, "Expect `)` after if condition"@) {
                    (Err(d), q2) => (Err(d), q2),
                    (Ok(_), q2) => if moved(ts, p, q2) {
                        let (rt, q3) = p_statement(ts, q2);
                        match rt {
                            Err(d) => (Err(d), q3),
                            Ok(t) => if check(ts, q3, TokenKind::Else) && p < q3 {
                                let (re, q4) = p_statement(ts, q3 + 1);
                                match re {
                                    Err(d) => (Err(d), q4),
                                    Ok(e) => (
                                        Ok(StmtView::If(c, Box::new(t), Some(Box::new(e)), if_loc)),
                                        q4,
                                    ),
                                }
                            } else {
                                (Ok(StmtView::If(c, Box::new(t), None, if_loc)), q3)
                            },
                        }
                    } else {
                        (Err(Diag::Syntax("Expect `)` after if condition"@, cur_loc(ts, q2))), q2)
                    },
                },
            }
        },
    }
}

/// `statement → ifStmt | printStmt | block | exprStmt`
pub open spec fn p_statement(ts: Seq<Token>, p: int) -> (Result<StmtView, Diag>, int)
    decreases ts.len() - p, 40int,
{
    if check(ts, p, TokenKind::If) {
        p_if_statement(ts, p + 1)
    } else if check(ts, p, TokenKind::Print) {
        p_print_statement(ts, p + 1)
    } else if check(ts, p, TokenKind::LBrace) {
        let (r, q) = p_block(ts, p + 1);
        match r {
            Ok(ss) => (Ok(StmtView::Block(ss, prev_loc(ts, q))), q),
            Err(d) => (Err(d), q),
        }
    } else {
        p_expression_statement(ts, p)
    }
}

/// `declaration → varDecl | statement`
pub open spec fn p_declaration(ts: Seq<Token>, p: int) -> (Result<StmtView, Diag>, int)
    decreases ts.len() - p, 41int,
{
    if check(ts, p, TokenKind::Var) {
        p_var_declaration(ts, p + 1)
    } else {
        p_statement(ts, p)
    }
}

/// `block → declaration* "}"`, from after the opening brace; the first
/// error ends the block.
pub open spec fn p_block(ts: Seq<Token>, p: int) -> (Result<Seq<StmtView>, Diag>, int)
    decreases ts.len() - p, 42int,
{
    if check(ts, p, TokenKind::RBrace) || at_end(ts, p) || p < 0 {
        match p_expect(ts, p, TokenKind::RBrace, "Expect `}` after block"@) {
            (Ok(_), q) => (Ok(Seq::empty()), q),
            (Err(d), q) => (Err(d), q),
        }
    } else {
        let (r, q) = p_declaration(ts, p);
        match r {
            Err(d) => (Err(d), q),
            Ok(s) => if moved(ts, p, q) {
                let (rest, q2) = p_block(ts, q);
                match rest {
                    Ok(ss) => (Ok(seq![s] + ss), q2),
                    Err(d) => (Err(d), q2),
                }
            } else {
                (Ok(seq![s]), q)
            },
        }
    }
}

/// Whether a token of kind `k` begins a statement.
pub open spec fn starts_statement(k: TokenKind) -> bool {
    k == TokenKind::Class || k == TokenKind::Fun || k == TokenKind::Var || k == TokenKind::For || k
        == TokenKind::If || k == TokenKind::While || k == TokenKind::Print || k == TokenKind::Return
}

/// Skips tokens after an error up to a statement boundary: just past a `;`,
/// or before a keyword that begins a statement.
pub open spec fn sync_loop(ts: Seq<Token>, p: int) -> int
    decreases ts.len() - p,
{
    if p < 1 || at_end(ts, p) {
        p
    } else if ts[p - 1].kind == TokenKind::Semicolon || starts_statement(ts[p].kind) {
        p
    } else {
        sync_loop(ts, p + 1)
    }
}

/// Where parsing resumes after an error at `p`: one token is always skipped.
pub open spec fn synchronize(ts: Seq<Token>, p: int) -> int {
    sync_loop(ts, if at_end(ts, p) { p } else { p + 1 })
}

/// All declarations up to the end, and every syntax error in order.
pub open spec fn p_program(ts: Seq<Token>, p: int) -> (Seq<StmtView>, Seq<Diag>)
    decreases ts.len() - p,
{
    if p < 0 || at_end(ts, p) {
        (Seq::empty(), Seq::empty())
    } else {
        let (r, q) = p_declaration(ts, p);
        let next = match r {
            Ok(_) => q,
            Err(_) => synchronize(ts, q),
        };
        if moved(ts, p, next) {
            let (ss, es) = p_program(ts, next);
            match r {
                Ok(s) => (seq![s] + ss, es),
                Err(d) => (ss, seq![d] + es),
            }
        } else {
            (Seq::empty(), Seq::empty())
        }
    }
}

/// The statements of `ts[p..]`, or all its syntax errors together.
pub open spec fn parse_from(ts: Seq<Token>, p: int) -> Result<Seq<StmtView>, Diag> {
    let (ss, es) = p_program(ts, p);
    if es.len() == 0 {
        Ok(ss)
    } else {
        Err(Diag::Multiple(es))
    }
}

/// The statements of a token sequence, or all its syntax errors together.
pub open spec fn parse_tokens(ts: Seq<Token>) -> Result<Seq<StmtView>, Diag> {
    parse_from(ts, 0)
}

/// A whole token sequence read as one expression.
pub open spec fn parse_expression_from(ts: Seq<Token>, p: int) -> Result<Expr, Diag> {
    let (r, q) = p_expression(ts, p);
    match r {
        Ok(e) => if at_end(ts, q) {
            Ok(e)
        } else {
            Err(Diag::Syntax("Expect end of input after expression"@, cur_loc(ts, q)))
        },
        Err(d) => Err(d),
    }
}

pub open spec fn expr_outcome(r: Result<Expr, RutoxError>, q: int, s: (Result<Expr, Diag>, int)) -> bool {
    &&& q == s.1
    &&& match r {
        Ok(e) => s.0 == Ok::<Expr, Diag>(e),
        Err(x) => s.0 == Err::<Expr, Diag>(x@),
    }
}

pub open spec fn stmt_outcome(r: Result<Stmt, RutoxError>, q: int, s: (Result<StmtView, Diag>, int)) -> bool {
    &&& q == s.1
    &&& match r {
        Ok(st) => s.0 == Ok::<StmtView, Diag>(st@),
        Err(x) => s.0 == Err::<StmtView, Diag>(x@),
    }
}

pub(crate) proof fn lemma_sync_loop(ts: Seq<Token>, p: int)
    requires
        0 <= p <= ts.len(),
    ensures
        p <= sync_loop(ts, p) <= ts.len(),
    decreases ts.len() - p,
{
    if !(p < 1 || at_end(ts, p)) && !(ts[p - 1].kind == TokenKind::Semicolon || starts_statement(
        ts[p].kind,
    )) {
        lemma_sync_loop(ts, p + 1);
    }
}

/// Every parse step stays within the tokens and never moves backwards.
pub open spec fn stays(ts: Seq<Token>, p: int, q: int) -> bool {
    p <= q <= ts.len()
}

proof fn lemma_expect_progress(ts: Seq<Token>, p: int, k: TokenKind, msg: Seq<char>)
    requires
        0 <= p <= ts.len(),
    ensures
        stays(ts, p, p_expect(ts, p, k, msg).1),
{
}

proof fn lemma_primary_progress(ts: Seq<Token>, p: int)
    requires
        0 <= p <= ts.len(),
    ensures
        stays(ts, p, p_primary(ts, p).1),
    decreases ts.len() - p, 0int,
{
    if !at_end(ts, p) && ts[p].kind == TokenKind::LParen {
        lemma_expression_progress(ts, p + 1);
        let (r, q) = p_expression(ts, p + 1);
        lemma_expect_progress(ts, q, TokenKind::RParen, "Expect `)` after expression"@);
    }
}

proof fn lemma_unary_progress(ts: Seq<Token>, p: int)
    requires
        0 <= p <= ts.len(),
    ensures
        stays(ts, p, p_unary(ts, p).1),
    decreases ts.len() - p, 1int,
{
    if check(ts, p, TokenKind::Bang) || check(ts, p, TokenKind::Minus) {
        lemma_unary_progress(ts, p + 1);
    } else {
        lemma_primary_progress(ts, p);
    }
}

proof fn lemma_operand_progress(ts: Seq<Token>, p: int, level: nat)
    requires
        0 <= p <= ts.len(),
    ensures
        stays(ts, p, p_operand(ts, p, level).1),
    decreases ts.len() - p, 3 * level + 2,
{
    if level <= FACTOR {
        lemma_unary_progress(ts, p);
    } else {
        lemma_binary_progress(ts, p, (level - 1) as nat);
    }
}

proof fn lemma_binary_progress(ts: Seq<Token>, p: int, level: nat)
    requires
        0 <= p <= ts.len(),
    ensures
        stays(ts, p, p_binary(ts, p, level).1),
    decreases ts.len() - p, 3 * level + 4,
{
    if level < FACTOR {
        lemma_unary_progress(ts, p);
    } else {
        lemma_operand_progress(ts, p, level);
        let (r, q) = p_operand(ts, p, level);
        if r is Ok {
            lemma_binary_rest_progress(ts, q, r->Ok_0, level);
        }
    }
}

proof fn lemma_binary_rest_progress(ts: Seq<Token>, p: int, left: Expr, level: nat)
    requires
        0 <= p <= ts.len(),
    ensures
        stays(ts, p, p_binary_rest(ts, p, left, level).1),
    decreases ts.len() - p, 3 * level + 3,
{
    if 0 <= p < ts.len() && level_has(level, ts[p].kind) && level >= FACTOR {
        lemma_operand_progress(ts, p + 1, level);
        let (r, q) = p_operand(ts, p + 1, level);
        if r is Ok && moved(ts, p, q) {
            lemma_binary_rest_progress(ts, q, join(level, left, ts[p], r->Ok_0), level);
        }
    }
}

proof fn lemma_assignment_progress(ts: Seq<Token>, p: int)
    requires
        0 <= p <= ts.len(),
    ensures
        stays(ts, p, p_assignment(ts, p).1),
    decreases ts.len() - p, 30int,
{
    lemma_binary_progress(ts, p, OR as nat);
    let (r, q) = p_binary(ts, p, OR as nat);
    if r is Ok && check(ts, q, TokenKind::Equal) && p <= q {
        lemma_assignment_progress(ts, q + 1);
    }
}

proof fn lemma_expression_progress(ts: Seq<Token>, p: int)
    requires
        0 <= p <= ts.len(),
    ensures
        stays(ts, p, p_expression(ts, p).1),
    decreases ts.len() - p, 31int,
{
    lemma_assignment_progress(ts, p);
}

proof fn lemma_expression_statement_progress(ts: Seq<Token>, p: int)
    requires
        0 <= p <= ts.len(),
    ensures
        stays(ts, p, p_expression_statement(ts, p).1),
    decreases ts.len() - p, 32int,
{
    lemma_expression_progress(ts, p);
    let (r, q) = p_expression(ts, p);
    lemma_expect_progress(ts, q, TokenKind::Semicolon, "Expect `;` after expression"@);
}

proof fn lemma_print_statement_progress(ts: Seq<Token>, p: int)
    requires
        0 <= p <= ts.len(),
    ensures
        stays(ts, p, p_print_statement(ts, p).1),
    decreases ts.len() - p, 32int,
{
    lemma_expression_progress(ts, p);
    let (r, q) = p_expression(ts, p);
    lemma_expect_progress(ts, q, TokenKind::Semicolon, "Expect `;` after print value"@);
}

proof fn lemma_var_declaration_progress(ts: Seq<Token>, p: int)
    requires
        0 <= p <= ts.len(),
    ensures
        stays(ts, p, p_var_declaration(ts, p).1),
    decreases ts.len() - p, 32int,
{
    if !at_end(ts, p) && ts[p].kind == TokenKind::Identifier {
        if check(ts, p + 1, TokenKind::Equal) {
            lemma_expression_progress(ts, p + 2);
            let (r, q) = p_expression(ts, p + 2);
            lemma_expect_progress(ts, q, TokenKind::Semicolon, "Expect semicolon after declaration"@);
        } else {
            lemma_expect_progress(
                ts,
                p + 1,
                TokenKind::Semicolon,
                "Expect semicolon after declaration"@,
            );
        }
    }
}

proof fn lemma_if_statement_progress(ts: Seq<Token>, p: int)
    requires
        0 <= p <= ts.len(),
    ensures
        stays(ts, p, p_if_statement(ts, p).1),
    decreases ts.len() - p, 32int,
{
    lemma_expect_progress(ts, p, TokenKind::LParen, "Expect `(` after `if`"@);
    let (r0, q) = p_expect(ts, p, TokenKind::LParen, "Expect `(` after `if`"@);
    if r0 is Ok {
        lemma_expression_progress(ts, q);
        let (rc, q1) = p_expression(ts, q);
        if rc is Ok {
            lemma_expect_progress(ts, q1, TokenKind::RParen, "Expect `)` after if condition"@);
            let (r2, q2) = p_expect(ts, q1, TokenKind::RParen, "Expect `)` after if condition"@);
            if r2 is Ok && moved(ts, p, q2) {
                lemma_statement_progress(ts, q2);
                let (rt, q3) = p_statement(ts, q2);
                if rt is Ok && check(ts, q3, TokenKind::Else) && p < q3 {
                    lemma_statement_progress(ts, q3 + 1);
                }
            }
        }
    }
}

proof fn lemma_statement_progress(ts: Seq<Token>, p: int)
    requires
        0 <= p <= ts.len(),
    ensures
        stays(ts, p, p_statement(ts, p).1),
    decreases ts.len() - p, 40int,
{
    if check(ts, p, TokenKind::If) {
        lemma_if_statement_progress(ts, p + 1);
    } else if check(ts, p, TokenKind::Print) {
        lemma_print_statement_progress(ts, p + 1);
    } else if check(ts, p, TokenKind::LBrace) {
        lemma_block_progress(ts, p + 1);
    } else {
        lemma_expression_statement_progress(ts, p);
    }
}

pub(crate) proof fn lemma_declaration_progress(ts: Seq<Token>, p: int)
    requires
        0 <= p <= ts.len(),
    ensures
        stays(ts, p, p_declaration(ts, p).1),
    decreases ts.len() - p, 41int,
{
    if check(ts, p, TokenKind::Var) {
        lemma_var_declaration_progress(ts, p + 1);
    } else {
        lemma_statement_progress(ts, p);
    }
}

proof fn lemma_block_progress(ts: Seq<Token>, p: int)
    requires
        0 <= p <= ts.len(),
    ensures
        stays(ts, p, p_block(ts, p).1),
    decreases ts.len() - p, 42int,
{
    if check(ts, p, TokenKind::RBrace) || at_end(ts, p) || p < 0 {
        lemma_expect_progress(ts, p, TokenKind::RBrace, "Expect `}` after block"@);
    } else {
        lemma_declaration_progress(ts, p);
        let (r, q) = p_declaration(ts, p);
        if r is Ok && moved(ts, p, q) {
            lemma_block_progress(ts, q);
        }
    }
}

fn syntax_error(msg: &str, loc: SrcLocation) -> (r: RutoxError)
    ensures
        r@ == Diag::Syntax(msg@, loc),
{
    RutoxError::Syntax(String::from_str(msg), loc)
}

fn binary_op_from(kind: TokenKind, l: SrcLocation) -> (r: BinaryOp)
    ensures
        r == binary_op_of(kind, l),
{
    match kind {
        TokenKind::BangEqual => BinaryOp::BangEqual(l),
        TokenKind::EqualEqual => BinaryOp::EqualEqual(l),
        TokenKind::Greater => BinaryOp::Greater(l),
        TokenKind::GreaterEqual => BinaryOp::GreaterEqual(l),
        TokenKind::Less => BinaryOp::Less(l),
        TokenKind::LessEqual => BinaryOp::LessEqual(l),
        TokenKind::Plus => BinaryOp::Plus(l),
        TokenKind::Minus => BinaryOp::Minus(l),
        TokenKind::Slash => BinaryOp::Div(l),
        _ => BinaryOp::Mul(l),
    }
}

fn join_exprs(level: usize, left: Expr, op: &Token, right: Expr) -> (r: Expr)
    ensures
        r == join(level as nat, left, *op, right),
{
    if level >= AND {
        let l = op.location;
        Expr::Logical(
            Box::new(left),
            if op.kind == TokenKind::And {
                LogicalOp::And(l)
            } else {
                LogicalOp::Or(l)
            },
            Box::new(right),
            l,
        )
    } else {
        Expr::Binary(
            BinaryData {
                operator: binary_op_from(op.kind, op.location),
                left: Box::new(left),
                right: Box::new(right),
                location: op.location,
            },
        )
    }
}

fn level_has_kind(level: usize, k: TokenKind) -> (r: bool)
    ensures
        r == level_has(level as nat, k),
{
    if level == FACTOR {
        k == TokenKind::Slash || k == TokenKind::Star
    } else if level == TERM {
        k == TokenKind::Minus || k == TokenKind::Plus
    } else if level == COMPARISON {
        k == TokenKind::Greater || k == TokenKind::GreaterEqual || k == TokenKind::Less || k
            == TokenKind::LessEqual
    } else if level == EQUALITY {
        k == TokenKind::BangEqual || k == TokenKind::EqualEqual
    } else if level == AND {
        k == TokenKind::And
    } else {
        k == TokenKind::Or
    }
}

/// Turns tokens into statements by recursive descent.
pub struct Parser {
    tokens: Vec<Token>,
    current: usize,
}

impl Parser {
    /// The tokens being parsed.
    pub closed spec fn toks(&self) -> Seq<Token> {
        self.tokens@
    }

    /// How many tokens have been read.
    pub closed spec fn pos(&self) -> int {
        self.current as int
    }

    /// The read position stays within the tokens.
    pub closed spec fn wf(&self) -> bool {
        self.current <= self.tokens@.len() <= usize::MAX
    }

    /// `new` read on from `self` over the same tokens.
    closed spec fn follows(&self, new: &Parser) -> bool {
        &&& new.tokens == self.tokens
        &&& new.wf()
        &&& self.current <= new.current
    }

    fn is_at_end(&self) -> (r: bool)
        ensures
            r == at_end(self.tokens@, self.current as int),
    {
        self.current >= self.tokens.len() || self.tokens[self.current].kind == TokenKind::Eof
    }

    fn check(&self, kind: TokenKind) -> (r: bool)
        ensures
            r == check(self.tokens@, self.current as int, kind),
    {
        self.current < self.tokens.len() && self.tokens[self.current].kind == kind
    }

    /// Reads a token of kind `kind` if one is next.
    fn match_kind(&mut self, kind: TokenKind) -> (r: bool)
        requires
            old(self).wf(),
        ensures
            old(self).follows(final(self)),
            r == check(old(self).tokens@, old(self).current as int, kind),
            final(self).current == if r {
                old(self).current + 1
            } else {
                old(self).current as int
            },
    {
        if self.check(kind) {
            self.current = self.current + 1;
            true
        } else {
            false
        }
    }

    fn previous_location(&self) -> (r: SrcLocation)
        ensures
            r == prev_loc(self.tokens@, self.current as int),
    {
        if 1 <= self.current && self.current <= self.tokens.len() {
            self.tokens[self.current - 1].location
        } else {
            SrcLocation { line: 1, col: 0 }
        }
    }

    fn current_location(&self) -> (r: SrcLocation)
        ensures
            r == cur_loc(self.tokens@, self.current as int),
    {
        if self.current < self.tokens.len() {
            self.tokens[self.current].location
        } else {
            self.previous_location()
        }
    }

    fn expect(&mut self, kind: TokenKind, message: &str) -> (r: Result<(), RutoxError>)
        requires
            old(self).wf(),
        ensures
            old(self).follows(final(self)),
            ({
                let (s, q) = p_expect(old(self).tokens@, old(self).current as int, kind, message@);
                &&& final(self).current == q
                &&& match r {
                    Ok(_) => s is Ok,
                    Err(e) => s == Err::<(), Diag>(e@),
                }
            }),
    {
        if self.match_kind(kind) {
            Ok(())
        } else {
            Err(syntax_error(message, self.current_location()))
        }
    }

    /// Skips tokens after an error up to a statement boundary.
    fn synchronize(&mut self)
        requires
            old(self).wf(),
        ensures
            old(self).follows(final(self)),
            final(self).current == synchronize(old(self).tokens@, old(self).current as int),
    {
        if !self.is_at_end() {
            self.current = self.current + 1;
        }
        while self.current >= 1 && !self.is_at_end()
            invariant
                self.wf(),
                self.tokens == old(self).tokens,
                old(self).current <= self.current,
                synchronize(self.tokens@, old(self).current as int) == sync_loop(
                    self.tokens@,
                    self.current as int,
                ),
            decreases self.tokens@.len() - self.current,
        {
            if self.tokens[self.current - 1].kind == TokenKind::Semicolon {
                assert(sync_loop(self.tokens@, self.current as int) == self.current as int);
                return;
            }
            match self.tokens[self.current].kind {
                TokenKind::Class | TokenKind::Fun | TokenKind::Var | TokenKind::For | TokenKind::If
                | TokenKind::While | TokenKind::Print | TokenKind::Return => {
                    assert(sync_loop(self.tokens@, self.current as int) == self.current as int);
                    return;
                },
                _ => {
                    self.current = self.current + 1;
                },
            }
        }
    }

    fn primary(&mut self) -> (r: Result<Expr, RutoxError>)
        requires
            old(self).wf(),
        ensures
            old(self).follows(final(self)),
            r is Ok ==> old(self).current < final(self).current,
            expr_outcome(
                r,
                final(self).current as int,
                p_primary(old(self).tokens@, old(self).current as int),
            ),
        decreases old(self).tokens@.len() - old(self).current, 0int,
    {
        if self.is_at_end() {
            return Err(syntax_error("Unexpected end of input", self.previous_location()));
        }
        let p = self.current;
        let kind = self.tokens[p].kind;
        let l = self.tokens[p].location;
        self.current = p + 1;
        if kind == TokenKind::True || kind == TokenKind::False {
            Ok(Expr::Literal(LiteralData::Bool(kind == TokenKind::True, l)))
        } else if kind == TokenKind::Number {
            Ok(Expr::Literal(LiteralData::Number(self.tokens[p].number, l)))
        } else if kind == TokenKind::String {
            Ok(Expr::Literal(LiteralData::String(self.tokens[p].text.clone(), l)))
        } else if kind == TokenKind::Nil {
            Ok(Expr::Literal(LiteralData::Nil(l)))
        } else if kind == TokenKind::Identifier {
            Ok(Expr::Variable(self.tokens[p].copy(), l))
        } else if kind == TokenKind::LParen {
            let e = self.expression()?;
            self.expect(TokenKind::RParen, "Expect `)` after expression")?;
            Ok(Expr::Grouping(Box::new(e), l))
        } else {
            let mut m = String::from_str("Expect expression, got `");
            let shown = self.tokens[p].render();
            push_str(&mut m, shown.as_str());
            push_str(&mut m, "`");
            assert(m@ =~= "Expect expression, got `"@ + token_text(self.tokens@[p as int]) + "`"@);
            Err(RutoxError::Syntax(m, l))
        }
    }

    fn unary(&mut self) -> (r: Result<Expr, RutoxError>)
        requires
            old(self).wf(),
        ensures
            old(self).follows(final(self)),
            r is Ok ==> old(self).current < final(self).current,
            expr_outcome(
                r,
                final(self).current as int,
                p_unary(old(self).tokens@, old(self).current as int),
            ),
        decreases old(self).tokens@.len() - old(self).current, 1int,
    {
        if self.check(TokenKind::Bang) || self.check(TokenKind::Minus) {
            let p = self.current;
            let kind = self.tokens[p].kind;
            let l = self.tokens[p].location;
            self.current = p + 1;
            let e = self.unary()?;
            let op = if kind == TokenKind::Bang {
                UnaryOp::Bang(l)
            } else {
                UnaryOp::Minus(l)
            };
            return Ok(Expr::Unary(UnaryData { operator: op, expr: Box::new(e), location: l }));
        }
        self.primary()
    }

    fn operand(&mut self, level: usize) -> (r: Result<Expr, RutoxError>)
        requires
            old(self).wf(),
            level <= OR,
        ensures
            old(self).follows(final(self)),
            r is Ok ==> old(self).current < final(self).current,
            expr_outcome(
                r,
                final(self).current as int,
                p_operand(old(self).tokens@, old(self).current as int, level as nat),
            ),
        decreases old(self).tokens@.len() - old(self).current, 3 * level + 2,
    {
        if level <= FACTOR {
            self.unary()
        } else {
            self.binary(level - 1)
        }
    }

    /// Parses one precedence level: operands joined by its operators, to
    /// the left.
    fn binary(&mut self, level: usize) -> (r: Result<Expr, RutoxError>)
        requires
            old(self).wf(),
            level <= OR,
        ensures
            old(self).follows(final(self)),
            r is Ok ==> old(self).current < final(self).current,
            expr_outcome(
                r,
                final(self).current as int,
                p_binary(old(self).tokens@, old(self).current as int, level as nat),
            ),
        decreases old(self).tokens@.len() - old(self).current, 3 * level + 4,
    {
        if level < FACTOR {
            return self.unary();
        }
        let e = self.operand(level)?;
        self.binary_rest(e, level)
    }

    fn binary_rest(&mut self, left: Expr, level: usize) -> (r: Result<Expr, RutoxError>)
        requires
            old(self).wf(),
            FACTOR <= level <= OR,
        ensures
            old(self).follows(final(self)),
            expr_outcome(
                r,
                final(self).current as int,
                p_binary_rest(old(self).tokens@, old(self).current as int, left, level as nat),
            ),
        decreases old(self).tokens@.len() - old(self).current, 3 * level + 3,
    {
        if self.current < self.tokens.len() && level_has_kind(level, self.tokens[self.current].kind) {
            let p = self.current;
            let op = self.tokens[p].copy();
            self.current = p + 1;
            let right = self.operand(level)?;
            let e = join_exprs(level, left, &op, right);
            return self.binary_rest(e, level);
        }
        Ok(left)
    }

    fn assignment(&mut self) -> (r: Result<Expr, RutoxError>)
        requires
            old(self).wf(),
        ensures
            old(self).follows(final(self)),
            r is Ok ==> old(self).current < final(self).current,
            expr_outcome(
                r,
                final(self).current as int,
                p_assignment(old(self).tokens@, old(self).current as int),
            ),
        decreases old(self).tokens@.len() - old(self).current, 30int,
    {
        let e = self.binary(OR)?;
        if self.check(TokenKind::Equal) {
            let l = self.tokens[self.current].location;
            self.current = self.current + 1;
            let value = self.assignment()?;
            return match e {
                Expr::Variable(name, _) => Ok(Expr::Assign(name, Box::new(value), l)),
                _ => Err(
                    syntax_error("Expect assignment target to be a variable", e.location()),
                ),
            };
        }
        Ok(e)
    }

    fn expression(&mut self) -> (r: Result<Expr, RutoxError>)
        requires
            old(self).wf(),
        ensures
            old(self).follows(final(self)),
            r is Ok ==> old(self).current < final(self).current,
            expr_outcome(
                r,
                final(self).current as int,
                p_expression(old(self).tokens@, old(self).current as int),
            ),
        decreases old(self).tokens@.len() - old(self).current, 31int,
    {
        self.assignment()
    }

    fn expression_statement(&mut self) -> (r: Result<Stmt, RutoxError>)
        requires
            old(self).wf(),
        ensures
            old(self).follows(final(self)),
            r is Ok ==> old(self).current < final(self).current,
            stmt_outcome(
                r,
                final(self).current as int,
                p_expression_statement(old(self).tokens@, old(self).current as int),
            ),
        decreases old(self).tokens@.len() - old(self).current, 32int,
    {
        let e = self.expression()?;
        self.expect(TokenKind::Semicolon, "Expect `;` after expression")?;
        let l = e.location();
        Ok(Stmt::Expr(e, l))
    }

    fn print_statement(&mut self) -> (r: Result<Stmt, RutoxError>)
        requires
            old(self).wf(),
        ensures
            old(self).follows(final(self)),
            r is Ok ==> old(self).current < final(self).current,
            stmt_outcome(
                r,
                final(self).current as int,
                p_print_statement(old(self).tokens@, old(self).current as int),
            ),
        decreases old(self).tokens@.len() - old(self).current, 32int,
    {
        let e = self.expression()?;
        self.expect(TokenKind::Semicolon, "Expect `;` after print value")?;
        Ok(Stmt::Print(e, self.previous_location()))
    }

    fn var_declaration(&mut self) -> (r: Result<Stmt, RutoxError>)
        requires
            old(self).wf(),
        ensures
            old(self).follows(final(self)),
            r is Ok ==> old(self).current < final(self).current,
            stmt_outcome(
                r,
                final(self).current as int,
                p_var_declaration(old(self).tokens@, old(self).current as int),
            ),
        decreases old(self).tokens@.len() - old(self).current, 32int,
    {
        let var_loc = self.previous_location();
        if self.is_at_end() {
            return Err(syntax_error("Expect variable name, got EOF", var_loc));
        }
        let p = self.current;
        self.current = p + 1;
        if self.tokens[p].kind != TokenKind::Identifier {
            let mut m = String::from_str("Expect variable name, got ");
            let shown = self.tokens[p].render();
            push_str(&mut m, shown.as_str());
            return Err(RutoxError::Syntax(m, self.tokens[p].location));
        }
        let name = self.tokens[p].copy();
        if self.check(TokenKind::Equal) {
            let eq_loc = self.tokens[self.current].location;
            self.current = self.current + 1;
            let init = self.expression()?;
            self.expect(TokenKind::Semicolon, "Expect semicolon after declaration")?;
            Ok(Stmt::Var(name, Some(init), eq_loc))
        } else {
            self.expect(TokenKind::Semicolon, "Expect semicolon after declaration")?;
            Ok(Stmt::Var(name, None, var_loc))
        }
    }

    fn if_statement(&mut self) -> (r: Result<Stmt, RutoxError>)
        requires
            old(self).wf(),
        ensures
            old(self).follows(final(self)),
            r is Ok ==> old(self).current < final(self).current,
            stmt_outcome(
                r,
                final(self).current as int,
                p_if_statement(old(self).tokens@, old(self).current as int),
            ),
        decreases old(self).tokens@.len() - old(self).current, 32int,
    {
        let if_loc = self.previous_location();
        self.expect(TokenKind::LParen, "Expect `(` after `if`")?;
        let cond = self.expression()?;
        self.expect(TokenKind::RParen, "Expect `)` after if condition")?;
        let then_branch = self.statement()?;
        if self.check(TokenKind::Else) {
            self.current = self.current + 1;
            let else_branch = self.statement()?;
            Ok(Stmt::If(cond, Box::new(then_branch), Some(Box::new(else_branch)), if_loc))
        } else {
            Ok(Stmt::If(cond, Box::new(then_branch), None, if_loc))
        }
    }

    fn statement(&mut self) -> (r: Result<Stmt, RutoxError>)
        requires
            old(self).wf(),
        ensures
            old(self).follows(final(self)),
            r is Ok ==> old(self).current < final(self).current,
            stmt_outcome(
                r,
                final(self).current as int,
                p_statement(old(self).tokens@, old(self).current as int),
            ),
        decreases old(self).tokens@.len() - old(self).current, 40int,
    {
        if self.match_kind(TokenKind::If) {
            return self.if_statement();
        }
        if self.match_kind(TokenKind::Print) {
            return self.print_statement();
        }
        if self.match_kind(TokenKind::LBrace) {
            let stmts = self.block()?;
            return Ok(Stmt::Block(stmts, self.previous_location()));
        }
        self.expression_statement()
    }

    fn declaration(&mut self) -> (r: Result<Stmt, RutoxError>)
        requires
            old(self).wf(),
        ensures
            old(self).follows(final(self)),
            r is Ok ==> old(self).current < final(self).current,
            stmt_outcome(
                r,
                final(self).current as int,
                p_declaration(old(self).tokens@, old(self).current as int),
            ),
        decreases old(self).tokens@.len() - old(self).current, 41int,
    {
        if self.match_kind(TokenKind::Var) {
            return self.var_declaration();
        }
        self.statement()
    }

    /// Parses declarations up to the closing brace; the first error ends
    /// the block.
    fn block(&mut self) -> (r: Result<Vec<Stmt>, RutoxError>)
        requires
            old(self).wf(),
        ensures
            old(self).follows(final(self)),
            r is Ok ==> old(self).current < final(self).current,
            ({
                let (s, q) = p_block(old(self).tokens@, old(self).current as int);
                &&& final(self).current == q
                &&& match r {
                    Ok(v) => s == Ok::<Seq<StmtView>, Diag>(stmts_view(v@)),
                    Err(e) => s == Err::<Seq<StmtView>, Diag>(e@),
                }
            }),
        decreases old(self).tokens@.len() - old(self).current, 42int,
    {
        let ghost ts = self.tokens@;
        let ghost p0 = self.current as int;
        let ghost total = p_block(ts, p0);
        let mut stmts: Vec<Stmt> = Vec::new();
        assert(stmts_view(stmts@) =~= Seq::<StmtView>::empty());
        while !self.check(TokenKind::RBrace) && !self.is_at_end()
            invariant
                old(self).follows(self),
                self.tokens@ == ts,
                p0 == old(self).current,
                total == p_block(ts, p0),
                total.1 == p_block(ts, self.current as int).1,
                match p_block(ts, self.current as int).0 {
                    Ok(ss) => total.0 == Ok::<Seq<StmtView>, Diag>(stmts_view(stmts@) + ss),
                    Err(d) => total.0 == Err::<Seq<StmtView>, Diag>(d),
                },
            decreases ts.len() - self.current,
        {
            let ghost before = stmts_view(stmts@);
            let s = self.declaration()?;
            let ghost prev = stmts@;
            stmts.push(s);
            assert(stmts@.drop_last() =~= prev);
            assert(stmts_view(stmts@) =~= before.push(s@));
            proof {
                match p_block(ts, self.current as int).0 {
                    Ok(ss) => {
                        assert(before + (seq![s@] + ss) =~= before.push(s@) + ss);
                    },
                    Err(_) => {},
                }
            }
        }
        self.expect(TokenKind::RBrace, "Expect `}` after block")?;
        assert(stmts_view(stmts@) + Seq::<StmtView>::empty() =~= stmts_view(stmts@));
        Ok(stmts)
    }

    pub fn new(tokens: Vec<Token>) -> (r: Parser)
        ensures
            r.toks() == tokens@,
            r.pos() == 0,
            r.wf(),
    {
        let count = tokens.len();
        assert(count == tokens@.len());
        Parser { tokens, current: 0 }
    }

    /// Parses declarations up to the end. A failing declaration is recorded
    /// and parsing resumes after it, so every independent syntax error is
    /// reported together.
    pub fn parse(&mut self) -> (r: Result<Vec<Stmt>, RutoxError>)
        requires
            old(self).wf(),
        ensures
            final(self).wf(),
            final(self).toks() == old(self).toks(),
            match parse_from(old(self).toks(), old(self).pos()) {
                Ok(ss) => r is Ok && stmts_view(r->Ok_0@) == ss,
                Err(d) => r is Err && r->Err_0@ == d,
            },
    {
        let ghost ts = self.tokens@;
        let ghost p0 = old(self).current as int;
        let ghost total = p_program(ts, p0);
        let mut stmts: Vec<Stmt> = Vec::new();
        let mut errors: Vec<RutoxError> = Vec::new();
        assert(stmts_view(stmts@) =~= Seq::<StmtView>::empty());
        assert(crate::error::diags_of(errors@) =~= Seq::<Diag>::empty());
        while !self.is_at_end()
            invariant
                self.wf(),
                self.tokens@ == ts,
                ts == old(self).toks(),
                total == p_program(ts, p0),
                total.0 == stmts_view(stmts@) + p_program(ts, self.current as int).0,
                total.1 == crate::error::diags_of(errors@) + p_program(ts, self.current as int).1,
            decreases ts.len() - self.current,
        {
            let p = self.current;
            let ghost before_s = stmts_view(stmts@);
            let ghost before_e = crate::error::diags_of(errors@);
            match self.declaration() {
                Ok(s) => {
                    let ghost prev = stmts@;
                    stmts.push(s);
                    assert(stmts@.drop_last() =~= prev);
                    assert(stmts_view(stmts@) =~= before_s.push(s@));
                    let ghost (ss, es) = p_program(ts, self.current as int);
                    assert(before_s + (seq![s@] + ss) =~= before_s.push(s@) + ss);
                },
                Err(e) => {
                    let ghost prev = errors@;
                    errors.push(e);
                    let ghost after_decl = self.current as int;
                    self.synchronize();
                    proof {
                        lemma_sync_loop(ts, if at_end(ts, after_decl) { after_decl } else { after_decl + 1 });
                    }
                    assert(errors@.drop_last() =~= prev);
                    assert(crate::error::diags_of(errors@) =~= before_e.push(e@));
                    let ghost (ss, es) = p_program(ts, self.current as int);
                    assert(before_e + (seq![e@] + es) =~= before_e.push(e@) + es);
                },
            }
        }
        assert(stmts_view(stmts@) + Seq::<StmtView>::empty() =~= stmts_view(stmts@));
        assert(crate::error::diags_of(errors@) + Seq::<Diag>::empty() =~= crate::error::diags_of(errors@));
        if errors.len() == 0 {
            Ok(stmts)
        } else {
            Err(RutoxError::Multiple(errors))
        }
    }

    /// Gives the tokens back.
    pub fn into_tokens(self) -> (r: Vec<Token>)
        ensures
            r@ == self.toks(),
    {
        self.tokens
    }

    /// Parses the whole remaining input as one expression.
    pub fn parse_expression(&mut self) -> (r: Result<Expr, RutoxError>)
        requires
            old(self).wf(),
        ensures
            final(self).wf(),
            final(self).toks() == old(self).toks(),
            match parse_expression_from(old(self).toks(), old(self).pos()) {
                Ok(e) => r == Ok::<Expr, RutoxError>(e),
                Err(d) => r is Err && r->Err_0@ == d,
            },
    {
        let e = self.expression()?;
        if self.is_at_end() {
            Ok(e)
        } else {
            Err(syntax_error("Expect end of input after expression", self.current_location()))
        }
    }
}

} // verus!
