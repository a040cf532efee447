use vstd::prelude::*;
use crate::ast::{binary_op_location, BinaryData, BinaryOp, Expr, LogicalOp, Stmt, UnaryData, UnaryOp};
use crate::env::{assign_in, define_in, leave_scope, lookup, Env};
use crate::error::{Diag, RutoxError};
use crate::location::SrcLocation;
use crate::number::{div_value, fits, mul_value, whole_value, NumError};
use crate::text::push_str;
use crate::value::{
    compare_values, describe_text, display_text, literal_obj, truthy, values_equal, LoxObj, Obj, Value,
};
use core::cmp::Ordering;

verus! {

/// The longest string that repetition may build.
pub const MAX_STRING_LEN: usize = 1_000_000_000;

/// A chain of scopes, the outermost first.
pub type Scopes = Seq<Map<Seq<char>, Obj>>;

/// A diagnostic that names both operands of a binary operator.
pub open spec fn operands_error(verb: Seq<char>, a: Value, b: Value, loc: SrcLocation) -> Diag {
    Diag::Runtime(verb + describe_text(a) + " and "@ + describe_text(b), loc)
}

pub open spec fn out_of_range(loc: SrcLocation) -> Diag {
    Diag::Runtime("Number out of range"@, loc)
}

/// A number result, or the range error when it does not fit.
pub open spec fn number_obj(n: int, loc: SrcLocation) -> Result<Obj, Diag> {
    if fits(n) {
        Ok(Obj { value: Value::Num(n), loc })
    } else {
        Err(out_of_range(loc))
    }
}

/// `s` repeated `n` times.
pub open spec fn repeat_seq(s: Seq<char>, n: nat) -> Seq<char>
    decreases n,
{
    if n == 0 {
        Seq::empty()
    } else {
        repeat_seq(s, (n - 1) as nat) + s
    }
}

/// How many times `string * n` repeats the string: the integer part of `n`,
/// and none for a negative `n`.
pub open spec fn repeat_count(n: int) -> nat {
    if whole_value(n) > 0 {
        whole_value(n) as nat
    } else {
        0
    }
}

pub open spec fn repeat_result(s: Seq<char>, n: int, loc: SrcLocation) -> Result<Obj, Diag> {
    if s.len() * repeat_count(n) > MAX_STRING_LEN {
        Err(Diag::Runtime("Repeated string is too long"@, loc))
    } else {
        Ok(Obj { value: Value::Str(repeat_seq(s, repeat_count(n))), loc })
    }
}

/// Whether an ordering satisfies a comparison operator.
pub open spec fn ordering_holds(op: BinaryOp, o: Ordering) -> bool {
    match op {
        BinaryOp::Greater(_) => o == Ordering::Greater,
        BinaryOp::GreaterEqual(_) => o != Ordering::Less,
        BinaryOp::Less(_) => o == Ordering::Less,
        _ => o != Ordering::Greater,
    }
}

/// The result of a binary operator on two values.
pub open spec fn binary_result(op: BinaryOp, a: Obj, b: Obj) -> Result<Obj, Diag> {
    let loc = binary_op_location(op);
    match op {
        BinaryOp::EqualEqual(_) => Ok(Obj { value: Value::Bool(values_equal(a.value, b.value)), loc }),
        BinaryOp::BangEqual(_) => Ok(
            Obj { value: Value::Bool(!values_equal(a.value, b.value)), loc },
        ),
        BinaryOp::Greater(_) | BinaryOp::GreaterEqual(_) | BinaryOp::Less(_) | BinaryOp::LessEqual(
            _,
        ) => match compare_values(a.value, b.value) {
            Some(o) => Ok(Obj { value: Value::Bool(ordering_holds(op, o)), loc }),
            None => Err(operands_error("Cannot compare "@, a.value, b.value, loc)),
        },
        BinaryOp::Plus(_) => match (a.value, b.value) {
            (Value::Num(x), Value::Num(y)) => number_obj(x + y, loc),
            (Value::Str(x), Value::Str(y)) => Ok(Obj { value: Value::Str(x + y), loc }),
            _ => Err(operands_error("Cannot add "@, a.value, b.value, loc)),
        },
        BinaryOp::Minus(_) => match (a.value, b.value) {
            (Value::Num(x), Value::Num(y)) => number_obj(x - y, loc),
            _ => Err(operands_error("Cannot subtract "@, a.value, b.value, loc)),
        },
        BinaryOp::Div(_) => match (a.value, b.value) {
            (Value::Num(x), Value::Num(y)) => if y == 0 {
                Err(Diag::Runtime("Division by zero"@, loc))
            } else {
                number_obj(div_value(x, y), loc)
            },
            _ => Err(operands_error("Cannot divide "@, a.value, b.value, loc)),
        },
        BinaryOp::Mul(_) => match (a.value, b.value) {
            (Value::Num(x), Value::Num(y)) => number_obj(mul_value(x, y), loc),
            (Value::Str(s), Value::Num(n)) => repeat_result(s, n, loc),
            _ => Err(operands_error("Cannot multiply "@, a.value, b.value, loc)),
        },
    }
}

/// The result of a unary operator on a value.
pub open spec fn unary_result(op: UnaryOp, v: Obj) -> Result<Obj, Diag> {
    match op {
        UnaryOp::Bang(loc) => Ok(Obj { value: Value::Bool(!truthy(v.value)), loc }),
        UnaryOp::Minus(loc) => match v.value {
            Value::Num(n) => Ok(Obj { value: Value::Num(-n), loc }),
            _ => Err(
                Diag::Runtime(
                    "Unary operator `-` can only be applied to numbers, but got "@ + display_text(
                        v.value,
                    ),
                    loc,
                ),
            ),
        },
    }
}

pub open spec fn undefined_variable(name: Seq<char>, loc: SrcLocation) -> Diag {
    Diag::Runtime("Undefined variable `"@ + name + "`"@, loc)
}

/// Evaluating an expression: its value or the first error, and the scopes
/// after the assignments it made.
pub open spec fn eval(env: Scopes, e: Expr) -> (Result<Obj, Diag>, Scopes)
    decreases e,
{
    match e {
        Expr::Literal(l) => (Ok(literal_obj(l)), env),
        Expr::Grouping(inner, _) => eval(env, *inner),
        Expr::Unary(u) => {
            let (r, env1) = eval(env, *u.expr);
            match r {
                Ok(v) => (unary_result(u.operator, v), env1),
                Err(d) => (Err(d), env1),
            }
        },
        Expr::Binary(b) => {
            let (ra, env1) = eval(env, *b.left);
            match ra {
                Ok(a) => {
                    let (rb, env2) = eval(env1, *b.right);
                    match rb {
                        Ok(bv) => (binary_result(b.operator, a, bv), env2),
                        Err(d) => (Err(d), env2),
                    }
                },
                Err(d) => (Err(d), env1),
            }
        },
        Expr::Logical(left, op, right, _) => {
            let (ra, env1) = eval(env, *left);
            match ra {
                Ok(a) => {
                    let done = match op {
                        LogicalOp::Or(_) => truthy(a.value),
                        LogicalOp::And(_) => !truthy(a.value),
                    };
                    if done {
                        (Ok(a), env1)
                    } else {
                        eval(env1, *right)
                    }
                },
                Err(d) => (Err(d), env1),
            }
        },
        Expr::Variable(name, loc) => match lookup(env, name.lexeme@) {
            Some(v) => (Ok(v), env),
            None => (Err(undefined_variable(name.lexeme@, loc)), env),
        },
        Expr::Assign(name, value, loc) => {
            let (r, env1) = eval(env, *value);
            match r {
                Ok(v) => match assign_in(env1, name.lexeme@, v) {
                    Some(env2) => (Ok(v), env2),
                    None => (Err(undefined_variable(name.lexeme@, loc)), env1),
                },
                Err(d) => (Err(d), env1),
            }
        },
    }
}

/// Executing a statement: success or the first error, the scopes after it,
/// and the lines it printed.
pub open spec fn exec_stmt(env: Scopes, s: Stmt) -> (Result<(), Diag>, Scopes, Seq<Seq<char>>)
    decreases s,
{
    match s {
        Stmt::Print(e, _) => {
            let (r, env1) = eval(env, e);
            match r {
                Ok(v) => (Ok(()), env1, seq![display_text(v.value)]),
                Err(d) => (Err(d), env1, Seq::empty()),
            }
        },
        Stmt::Expr(e, _) => {
            let (r, env1) = eval(env, e);
            match r {
                Ok(_) => (Ok(()), env1, Seq::empty()),
                Err(d) => (Err(d), env1, Seq::empty()),
            }
        },
        Stmt::Var(name, init, loc) => match init {
            None => (
                Ok(()),
                define_in(env, name.lexeme@, Obj { value: Value::Nil, loc }),
                Seq::empty(),
            ),
            Some(e) => {
                let (r, env1) = eval(env, e);
                match r {
                    Ok(v) => (Ok(()), define_in(env1, name.lexeme@, v), Seq::empty()),
                    Err(d) => (Err(d), env1, Seq::empty()),
                }
            },
        },
        Stmt::Block(stmts, _) => {
            let (r, env1, out) = exec_stmts(env.push(Map::empty()), stmts@);
            (r, leave_scope(env1), out)
        },
        Stmt::If(cond, then_branch, else_branch, _) => {
            let (r, env1) = eval(env, cond);
            match r {
                Ok(c) => if truthy(c.value) {
                    exec_stmt(env1, *then_branch)
                } else {
                    match else_branch {
                        Some(b) => exec_stmt(env1, *b),
                        None => (Ok(()), env1, Seq::empty()),
                    }
                },
                Err(d) => (Err(d), env1, Seq::empty()),
            }
        },
    }
}

/// Executing statements in order, stopping at the first error.
pub open spec fn exec_stmts(env: Scopes, ss: Seq<Stmt>) -> (Result<(), Diag>, Scopes, Seq<Seq<char>>)
    decreases ss,
{
    if ss.len() == 0 {
        (Ok(()), env, Seq::empty())
    } else {
        let (r, env1, out1) = exec_stmt(env, ss[0]);
        match r {
            Ok(_) => {
                let (r2, env2, out2) = exec_stmts(env1, ss.drop_first());
                (r2, env2, out1 + out2)
            },
            Err(d) => (Err(d), env1, out1),
        }
    }
}

pub open spec fn obj_result(r: Result<LoxObj, RutoxError>) -> Result<Obj, Diag> {
    match r {
        Ok(v) => Ok(v@),
        Err(e) => Err(e@),
    }
}

pub open spec fn unit_result(r: Result<(), RutoxError>) -> Result<(), Diag> {
    match r {
        Ok(_) => Ok(()),
        Err(e) => Err(e@),
    }
}

fn runtime_error(msg: String, loc: SrcLocation) -> (r: RutoxError)
    ensures
        r@ == Diag::Runtime(msg@, loc),
{
    RutoxError::Runtime(msg, loc)
}

fn operands_failure(verb: &str, a: &LoxObj, b: &LoxObj, loc: SrcLocation) -> (r: RutoxError)
    ensures
        r@ == operands_error(verb@, a@.value, b@.value, loc),
{
    let mut m = String::from_str(verb);
    a.push_description(&mut m);
    push_str(&mut m, " and ");
    b.push_description(&mut m);
    let ghost expected = verb@ + describe_text(a@.value) + " and "@ + describe_text(b@.value);
    assert(m@ =~= expected);
    runtime_error(m, loc)
}

fn number_outcome(r: Result<crate::number::Number, NumError>, loc: SrcLocation) -> (out: Result<
    LoxObj,
    RutoxError,
>)
    ensures
        r is Ok ==> obj_result(out) == Ok::<Obj, Diag>(
            Obj { value: Value::Num(r->Ok_0@), loc },
        ),
        r is Err ==> obj_result(out) == Err::<Obj, Diag>(out_of_range(loc)),
{
    match r {
        Ok(n) => Ok(LoxObj::Number(n, loc)),
        Err(_) => Err(runtime_error(String::from_str("Number out of range"), loc)),
    }
}

fn repeat_string(s: &String, n: &crate::number::Number, loc: SrcLocation) -> (r: Result<
    LoxObj,
    RutoxError,
>)
    ensures
        obj_result(r) == repeat_result(s@, n@, loc),
{
    let w = n.whole();
    let len = s.as_str().unicode_len();
    let ghost count = repeat_count(n@);
    if w <= 0 || len == 0 {
        assert(s@.len() * count == 0) by (nonlinear_arith)
            requires
                s@.len() == 0 || count == 0,
        ;
        assert(repeat_seq(s@, count) =~= Seq::empty()) by {
            lemma_repeat_empty(s@, count);
        }
        return Ok(LoxObj::String(String::new(), loc));
    }
    if w > (MAX_STRING_LEN / len) as i128 {
        assert(s@.len() * count > MAX_STRING_LEN) by (nonlinear_arith)
            requires
                count == w,
                s@.len() == len,
                len >= 1,
                w > MAX_STRING_LEN / len,
        ;
        return Err(runtime_error(String::from_str("Repeated string is too long"), loc));
    }
    let times = w as usize;
    assert(s@.len() * count <= MAX_STRING_LEN) by (nonlinear_arith)
        requires
            count == times,
            s@.len() == len,
            len >= 1,
            times <= MAX_STRING_LEN / len,
    ;
    let mut out = String::new();
    let mut k: usize = 0;
    while k < times
        invariant
            k <= times,
            out@ == repeat_seq(s@, k as nat),
        decreases times - k,
    {
        push_str(&mut out, s.as_str());
        k = k + 1;
    }
    Ok(LoxObj::String(out, loc))
}

proof fn lemma_repeat_empty(s: Seq<char>, n: nat)
    requires
        s.len() == 0 || n == 0,
    ensures
        repeat_seq(s, n) =~= Seq::<char>::empty(),
    decreases n,
{
    if n > 0 {
        lemma_repeat_empty(s, (n - 1) as nat);
    }
}

/// The result of a binary operator on two values.
fn binary_op(op: BinaryOp, a: &LoxObj, b: &LoxObj) -> (r: Result<LoxObj, RutoxError>)
    ensures
        obj_result(r) == binary_result(op, a@, b@),
{
    let loc = op.location();
    match op {
        BinaryOp::EqualEqual(_) => Ok(LoxObj::Bool(a.is_equal(b), loc)),
        BinaryOp::BangEqual(_) => Ok(LoxObj::Bool(!a.is_equal(b), loc)),
        BinaryOp::Greater(_) | BinaryOp::GreaterEqual(_) | BinaryOp::Less(_) | BinaryOp::LessEqual(
            _,
        ) => match a.compare(b) {
            Some(o) => {
                let holds = match op {
                    BinaryOp::Greater(_) => matches!(o, Ordering::Greater),
                    BinaryOp::GreaterEqual(_) => !matches!(o, Ordering::Less),
                    BinaryOp::Less(_) => matches!(o, Ordering::Less),
                    _ => !matches!(o, Ordering::Greater),
                };
                Ok(LoxObj::Bool(holds, loc))
            },
            None => Err(operands_failure("Cannot compare ", a, b, loc)),
        },
        BinaryOp::Plus(_) => match (a, b) {
            (LoxObj::Number(x, _), LoxObj::Number(y, _)) => number_outcome(x.add(y), loc),
            (LoxObj::String(x, _), LoxObj::String(y, _)) => {
                let mut s = x.clone();
                push_str(&mut s, y.as_str());
                Ok(LoxObj::String(s, loc))
            },
            _ => Err(operands_failure("Cannot add ", a, b, loc)),
        },
        BinaryOp::Minus(_) => match (a, b) {
            (LoxObj::Number(x, _), LoxObj::Number(y, _)) => number_outcome(x.sub(y), loc),
            _ => Err(operands_failure("Cannot subtract ", a, b, loc)),
        },
        BinaryOp::Div(_) => match (a, b) {
            (LoxObj::Number(x, _), LoxObj::Number(y, _)) => {
                if y.scaled() == 0 {
                    Err(runtime_error(String::from_str("Division by zero"), loc))
                } else {
                    number_outcome(x.div(y), loc)
                }
            },
            _ => Err(operands_failure("Cannot divide ", a, b, loc)),
        },
        BinaryOp::Mul(_) => match (a, b) {
            (LoxObj::Number(x, _), LoxObj::Number(y, _)) => number_outcome(x.mul(y), loc),
            (LoxObj::String(s, _), LoxObj::Number(n, _)) => repeat_string(s, n, loc),
            _ => Err(operands_failure("Cannot multiply ", a, b, loc)),
        },
    }
}

/// Evaluates expressions and executes statements over one chain of scopes,
/// collecting the lines that `print` writes.
pub struct Interpreter {
    env: Env,
    output: Vec<String>,
}

impl Interpreter {
    /// The current chain of scopes.
    pub closed spec fn scopes(&self) -> Scopes {
        self.env@
    }

    /// The lines printed so far and not yet taken.
    pub closed spec fn printed(&self) -> Seq<Seq<char>> {
        self.output@.map_values(|l: String| l@)
    }

    pub fn new() -> (r: Interpreter)
        ensures
            r.scopes() == seq![Map::<Seq<char>, Obj>::empty()],
            r.printed() == Seq::<Seq<char>>::empty(),
    {
        let r = Interpreter { env: Env::default(), output: Vec::new() };
        assert(r.printed() =~= Seq::<Seq<char>>::empty());
        r
    }

    /// Hands out the printed lines and forgets them.
    pub fn take_output(&mut self) -> (r: Vec<String>)
        ensures
            r@.map_values(|l: String| l@) == old(self).printed(),
            final(self).printed() == Seq::<Seq<char>>::empty(),
            final(self).scopes() == old(self).scopes(),
    {
        let mut r = Vec::new();
        core::mem::swap(&mut r, &mut self.output);
        assert(self.printed() =~= Seq::<Seq<char>>::empty());
        r
    }

    /// Executes the statements in order and stops at the first error.
    pub fn interpret(&mut self, stmts: Vec<Stmt>) -> (r: Result<(), RutoxError>)
        ensures
            ({
                let (res, env, out) = exec_stmts(old(self).scopes(), stmts@);
                &&& unit_result(r) == res
                &&& final(self).scopes() == env
                &&& final(self).printed() == old(self).printed() + out
            }),
    {
        self.execute_all(&stmts)
    }

    /// Evaluates one expression.
    pub fn evaluate(&mut self, expr: &Expr) -> (r: Result<LoxObj, RutoxError>)
        ensures
            ({
                let (res, env) = eval(old(self).scopes(), *expr);
                &&& obj_result(r) == res
                &&& final(self).scopes() == env
                &&& final(self).printed() == old(self).printed()
            }),
    {
        self.visit_expr(expr)
    }

    fn execute_all(&mut self, stmts: &Vec<Stmt>) -> (r: Result<(), RutoxError>)
        ensures
            ({
                let (res, env, out) = exec_stmts(old(self).env@, stmts@);
                &&& unit_result(r) == res
                &&& final(self).env@ == env
                &&& final(self).printed() == old(self).printed() + out
            }),
        decreases stmts@,
    {
        let ghost env0 = self.env@;
        let ghost out0 = self.printed();
        let ghost total = exec_stmts(env0, stmts@);
        let mut i: usize = 0;
        assert(stmts@.skip(0) =~= stmts@);
        assert(out0 + Seq::<Seq<char>>::empty() =~= out0);
        while i < stmts.len()
            invariant
                i <= stmts@.len(),
                env0 == old(self).env@,
                out0 == old(self).printed(),
                total == exec_stmts(env0, stmts@),
                ({
                    let (res, env, out) = exec_stmts(self.env@, stmts@.skip(i as int));
                    &&& total.0 == res
                    &&& total.1 == env
                    &&& out0 + total.2 == self.printed() + out
                }),
            decreases stmts@.len() - i,
        {
            let ghost before = self.printed();
            let ghost env_i = self.env@;
            let ghost rest = stmts@.skip(i as int);
            assert(rest[0] == stmts@[i as int]);
            assert(rest.drop_first() =~= stmts@.skip(i + 1));
            let r = self.visit_stmt(&stmts[i]);
            let ghost (res1, env1, out1) = exec_stmt(env_i, stmts@[i as int]);
            match r {
                Ok(()) => {
                    proof {
                        let (res2, env2, out2) = exec_stmts(env1, rest.drop_first());
                        assert(before + (out1 + out2) =~= (before + out1) + out2);
                    }
                },
                Err(e) => {
                    proof {
                        assert(exec_stmts(env_i, rest) == (res1, env1, out1));
                        assert(out0 + total.2 == self.printed());
                    }
                    return Err(e);
                },
            }
            i = i + 1;
        }
        assert(stmts@.skip(i as int) =~= Seq::<Stmt>::empty());
        assert(self.printed() + Seq::<Seq<char>>::empty() =~= self.printed());
        Ok(())
    }

    fn print_line(&mut self, line: String)
        ensures
            final(self).printed() == old(self).printed().push(line@),
            final(self).env == old(self).env,
    {
        self.output.push(line);
        assert(self.printed() =~= old(self).printed().push(line@));
    }

    fn visit_stmt(&mut self, stmt: &Stmt) -> (r: Result<(), RutoxError>)
        ensures
            ({
                let (res, env, out) = exec_stmt(old(self).env@, *stmt);
                &&& unit_result(r) == res
                &&& final(self).env@ == env
                &&& final(self).printed() == old(self).printed() + out
            }),
        decreases stmt,
    {
        let ghost out0 = self.printed();
        match stmt {
            Stmt::Print(e, _) => {
                let v = self.visit_expr(e)?;
                let line = v.render();
                self.print_line(line);
                assert(self.printed() =~= out0 + seq![line@]);
                Ok(())
            },
            Stmt::Expr(e, _) => {
                match self.visit_expr(e) {
                    Ok(_) => {
                        assert(self.printed() =~= out0 + Seq::<Seq<char>>::empty());
                        Ok(())
                    },
                    Err(err) => {
                        assert(self.printed() =~= out0 + Seq::<Seq<char>>::empty());
                        Err(err)
                    },
                }
            },
            Stmt::Var(name, init, loc) => {
                let value = match init {
                    Some(e) => {
                        match self.visit_expr(e) {
                            Ok(v) => v,
                            Err(err) => {
                                assert(self.printed() =~= out0 + Seq::<Seq<char>>::empty());
                                return Err(err);
                            },
                        }
                    },
                    None => LoxObj::Nil(*loc),
                };
                self.env.define(name.lexeme.as_str(), value);
                assert(self.printed() =~= out0 + Seq::<Seq<char>>::empty());
                Ok(())
            },
            Stmt::Block(stmts, _) => {
                self.env.enter_scope();
                let r = self.execute_all(stmts);
                self.env.exit_scope();
                r
            },
            Stmt::If(cond, then_branch, else_branch, _) => {
                let c = match self.visit_expr(cond) {
                    Ok(v) => v,
                    Err(err) => {
                        assert(self.printed() =~= out0 + Seq::<Seq<char>>::empty());
                        return Err(err);
                    },
                };
                if c.is_truthy() {
                    self.visit_stmt(then_branch)
                } else {
                    match else_branch {
                        Some(b) => self.visit_stmt(b),
                        None => {
                            assert(self.printed() =~= out0 + Seq::<Seq<char>>::empty());
                            Ok(())
                        },
                    }
                }
            },
        }
    }

    fn visit_expr(&mut self, expr: &Expr) -> (r: Result<LoxObj, RutoxError>)
        ensures
            ({
                let (res, env) = eval(old(self).env@, *expr);
                &&& obj_result(r) == res
                &&& final(self).env@ == env
                &&& final(self).output == old(self).output
            }),
        decreases expr,
    {
        match expr {
            Expr::Literal(l) => Ok(LoxObj::from_literal(l)),
            Expr::Grouping(inner, _) => self.visit_expr(inner),
            Expr::Unary(u) => self.visit_unary_expr(u),
            Expr::Binary(b) => self.visit_binary_expr(b),
            Expr::Logical(left, op, right, _) => {
                let a = self.visit_expr(left)?;
                let done = match op {
                    LogicalOp::Or(_) => a.is_truthy(),
                    LogicalOp::And(_) => !a.is_truthy(),
                };
                if done {
                    Ok(a)
                } else {
                    self.visit_expr(right)
                }
            },
            Expr::Variable(name, loc) => match self.env.get(name.lexeme.as_str()) {
                Some(v) => Ok(v.copy()),
                None => Err(undefined(&name.lexeme, *loc)),
            },
            Expr::Assign(name, value, loc) => {
                let v = self.visit_expr(value)?;
                let kept = v.copy();
                match self.env.assign(name.lexeme.as_str(), v) {
                    Ok(()) => Ok(kept),
                    Err(()) => Err(undefined(&name.lexeme, *loc)),
                }
            },
        }
    }

    fn visit_unary_expr(&mut self, unary: &UnaryData) -> (r: Result<LoxObj, RutoxError>)
        ensures
            ({
                let (res, env) = eval(old(self).env@, Expr::Unary(*unary));
                &&& obj_result(r) == res
                &&& final(self).env@ == env
                &&& final(self).output == old(self).output
            }),
        decreases unary,
    {
        let v = self.visit_expr(&unary.expr)?;
        match unary.operator {
            UnaryOp::Bang(loc) => Ok(LoxObj::Bool(!v.is_truthy(), loc)),
            UnaryOp::Minus(loc) => match v {
                LoxObj::Number(n, _) => Ok(LoxObj::Number(n.neg(), loc)),
                other => {
                    let mut m = String::from_str(
                        "Unary operator `-` can only be applied to numbers, but got ",
                    );
                    other.push_display(&mut m);
                    Err(runtime_error(m, loc))
                },
            },
        }
    }

    fn visit_binary_expr(&mut self, binary: &BinaryData) -> (r: Result<LoxObj, RutoxError>)
        ensures
            ({
                let (res, env) = eval(old(self).env@, Expr::Binary(*binary));
                &&& obj_result(r) == res
                &&& final(self).env@ == env
                &&& final(self).output == old(self).output
            }),
        decreases binary,
    {
        let a = self.visit_expr(&binary.left)?;
        let b = self.visit_expr(&binary.right)?;
        binary_op(binary.operator, &a, &b)
    }
}

fn undefined(name: &String, loc: SrcLocation) -> (r: RutoxError)
    ensures
        r@ == crate::interpreter::undefined_variable(name@, loc),
{
    let mut m = String::from_str("Undefined variable `");
    push_str(&mut m, name.as_str());
    push_str(&mut m, "`");
    runtime_error(m, loc)
}

} // verus!
