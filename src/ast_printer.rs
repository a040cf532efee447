use vstd::prelude::*;
use crate::ast::{BinaryOp, Expr, LiteralData, LogicalOp, UnaryOp};
use crate::number::render_number;
use crate::text::push_str;

verus! {

pub open spec fn unary_symbol(op: UnaryOp) -> Seq<char> {
    match op {
        UnaryOp::Bang(_) => "!"@,
        UnaryOp::Minus(_) => "-"@,
    }
}

pub open spec fn binary_symbol(op: BinaryOp) -> Seq<char> {
    match op {
        BinaryOp::BangEqual(_) => "!="@,
        BinaryOp::EqualEqual(_) => "=="@,
        BinaryOp::Greater(_) => ">"@,
        BinaryOp::GreaterEqual(_) => ">="@,
        BinaryOp::Less(_) => "<"@,
        BinaryOp::LessEqual(_) => "<="@,
        BinaryOp::Plus(_) => "+"@,
        BinaryOp::Minus(_) => "-"@,
        BinaryOp::Div(_) => "/"@,
        BinaryOp::Mul(_) => "*"@,
    }
}

pub open spec fn literal_text(l: LiteralData) -> Seq<char> {
    match l {
        LiteralData::String(s, _) => "\""@ + s@ + "\""@,
        LiteralData::Number(n, _) => render_number(n@),
        LiteralData::Bool(b, _) => if b {
            "true"@
        } else {
            "false"@
        },
        LiteralData::Nil(_) => "nil"@,
    }
}

/// An expression written out with every operator in prefix form and
/// parenthesised.
pub open spec fn ast_text(e: Expr) -> Seq<char>
    decreases e,
{
    match e {
        Expr::Literal(l) => literal_text(l),
        Expr::Unary(u) => "("@ + unary_symbol(u.operator) + " "@ + ast_text(*u.expr) + ")"@,
        Expr::Binary(b) => "("@ + binary_symbol(b.operator) + " "@ + ast_text(*b.left) + " "@
            + ast_text(*b.right) + ")"@,
        Expr::Grouping(inner, _) => "(group "@ + ast_text(*inner) + " )"@,
        Expr::Variable(name, _) => name.lexeme@,
        Expr::Assign(name, value, _) => "(= "@ + name.lexeme@ + " "@ + ast_text(*value) + ")"@,
        Expr::Logical(left, op, right, _) => "("@ + (match op {
            LogicalOp::And(_) => "and"@,
            LogicalOp::Or(_) => "or"@,
        }) + " "@ + ast_text(*left) + " "@ + ast_text(*right) + ")"@,
    }
}

/// Writes expressions out as parenthesised prefix text.
pub struct AstPrinter {}

impl AstPrinter {
    /// The parenthesised prefix text of an expression.
    pub fn render(expr: &Expr) -> (r: String)
        ensures
            r@ == ast_text(*expr),
    {
        let mut s = String::new();
        push_expr(&mut s, expr);
        assert(s@ =~= ast_text(*expr));
        s
    }
}

fn unary_symbol_str(op: UnaryOp) -> (r: &'static str)
    ensures
        r@ == unary_symbol(op),
{
    match op {
        UnaryOp::Bang(_) => "!",
        UnaryOp::Minus(_) => "-",
    }
}

fn binary_symbol_str(op: BinaryOp) -> (r: &'static str)
    ensures
        r@ == binary_symbol(op),
{
    match op {
        BinaryOp::BangEqual(_) => "!=",
        BinaryOp::EqualEqual(_) => "==",
        BinaryOp::Greater(_) => ">",
        BinaryOp::GreaterEqual(_) => ">=",
        BinaryOp::Less(_) => "<",
        BinaryOp::LessEqual(_) => "<=",
        BinaryOp::Plus(_) => "+",
        BinaryOp::Minus(_) => "-",
        BinaryOp::Div(_) => "/",
        BinaryOp::Mul(_) => "*",
    }
}

fn push_expr(s: &mut String, e: &Expr)
    ensures
        final(s)@ == old(s)@ + ast_text(*e),
    decreases e,
{
    let ghost s0 = s@;
    match e {
        Expr::Literal(l) => match l {
            LiteralData::String(t, _) => {
                push_str(s, "\"");
                push_str(s, t.as_str());
                push_str(s, "\"");
            },
            LiteralData::Number(n, _) => {
                let t = n.render();
                push_str(s, t.as_str());
            },
            LiteralData::Bool(b, _) => {
                if *b {
                    push_str(s, "true");
                } else {
                    push_str(s, "false");
                }
            },
            LiteralData::Nil(_) => push_str(s, "nil"),
        },
        Expr::Unary(u) => {
            push_str(s, "(");
            push_str(s, unary_symbol_str(u.operator));
            push_str(s, " ");
            push_expr(s, &u.expr);
            push_str(s, ")");
        },
        Expr::Binary(b) => {
            push_str(s, "(");
            push_str(s, binary_symbol_str(b.operator));
            push_str(s, " ");
            push_expr(s, &b.left);
            push_str(s, " ");
            push_expr(s, &b.right);
            push_str(s, ")");
        },
        Expr::Grouping(inner, _) => {
            push_str(s, "(group ");
            push_expr(s, inner);
            push_str(s, " )");
        },
        Expr::Variable(name, _) => push_str(s, name.lexeme.as_str()),
        Expr::Assign(name, value, _) => {
            push_str(s, "(= ");
            push_str(s, name.lexeme.as_str());
            push_str(s, " ");
            push_expr(s, value);
            push_str(s, ")");
        },
        Expr::Logical(left, op, right, _) => {
            push_str(s, "(");
            match op {
                LogicalOp::And(_) => push_str(s, "and"),
                LogicalOp::Or(_) => push_str(s, "or"),
            }
            push_str(s, " ");
            push_expr(s, left);
            push_str(s, " ");
            push_expr(s, right);
            push_str(s, ")");
        },
    }
    assert(s@ =~= s0 + ast_text(*e));
}

} // verus!
