use vstd::prelude::*;
use crate::ast::{BinaryOp, Expr, LogicalOp, Stmt};
use crate::env::{lemma_assign_keeps_depth, lemma_assign_needs_binding, lookup};
use crate::error::Diag;
use crate::interpreter::{binary_result, eval, exec_stmt, exec_stmts, undefined_variable, Scopes};
use crate::location::SrcLocation;
use crate::number::{
    literal_scaled, padded_digits, render_magnitude, render_number, six_digits, trim_zeros,
    FRACTION_DIGITS, MAX_SCALED, SCALE,
};
use crate::parser::{
    at_end, lemma_declaration_progress, lemma_sync_loop, p_declaration, p_program, synchronize,
};
use crate::scanner::{lex_step, run_end, scan, scan_from, CharClass};
use crate::text::{digit_char, digit_value, digits_value, is_digit, nat_digits};
use crate::token::TokenKind;
use vstd::arithmetic::div_mod::lemma_breakdown;
use crate::token::Token;
use crate::value::{compare_values, seq_cmp, truthy, values_equal, Obj, Value};
use core::cmp::Ordering;

verus! {

/// Whether two values are of the same kind.
pub open spec fn same_kind(a: Value, b: Value) -> bool {
    match (a, b) {
        (Value::Nil, Value::Nil) => true,
        (Value::Bool(_), Value::Bool(_)) => true,
        (Value::Num(_), Value::Num(_)) => true,
        (Value::Str(_), Value::Str(_)) => true,
        _ => false,
    }
}

/// Only `false` and `nil` are falsy: `true`, every number (zero too) and
/// every string (the empty one too) are truthy.
pub proof fn truthiness_table(n: int, s: Seq<char>)
    ensures
        !truthy(Value::Bool(false)),
        !truthy(Value::Nil),
        truthy(Value::Bool(true)),
        truthy(Value::Num(n)),
        truthy(Value::Str(s)),
        truthy(Value::Num(0)),
        truthy(Value::Str(Seq::empty())),
{
}

/// Equality is reflexive and symmetric, is false between values of
/// different kinds, and `==` and `!=` never fail.
pub proof fn equality_laws(a: Obj, b: Obj, l: SrcLocation)
    ensures
        values_equal(a.value, a.value),
        values_equal(a.value, b.value) == values_equal(b.value, a.value),
        !same_kind(a.value, b.value) ==> !values_equal(a.value, b.value),
        binary_result(BinaryOp::EqualEqual(l), a, b) == Ok::<Obj, Diag>(
            Obj { value: Value::Bool(values_equal(a.value, b.value)), loc: l },
        ),
        binary_result(BinaryOp::BangEqual(l), a, b) == Ok::<Obj, Diag>(
            Obj { value: Value::Bool(!values_equal(a.value, b.value)), loc: l },
        ),
{
}

proof fn lemma_seq_cmp_flip(a: Seq<char>, b: Seq<char>)
    ensures
        (seq_cmp(a, b) == Ordering::Less) == (seq_cmp(b, a) == Ordering::Greater),
        (seq_cmp(a, b) == Ordering::Equal) == (a == b),
    decreases a.len(),
{
    if a.len() > 0 && b.len() > 0 {
        if a[0] == b[0] {
            lemma_seq_cmp_flip(a.drop_first(), b.drop_first());
            assert(a =~= seq![a[0]] + a.drop_first());
            assert(b =~= seq![b[0]] + b.drop_first());
            if a == b {
                assert(a.drop_first() == b.drop_first());
            }
        } else {
            assert(a[0] != b[0]);
            assert(a != b);
        }
    } else if a.len() == 0 && b.len() > 0 {
        assert(a.len() != b.len());
    } else if a.len() > 0 && b.len() == 0 {
        assert(a.len() != b.len());
    } else {
        assert(a =~= b);
    }
}

/// Ordering fails with a runtime error unless both operands are numbers or
/// both are strings; numbers compare by value and strings
/// lexicographically, and swapping the operands mirrors the answer.
pub proof fn ordering_laws(a: Obj, b: Obj, l: SrcLocation)
    ensures
        forall|op: BinaryOp|
            #![trigger binary_result(op, a, b)]
            (op == BinaryOp::Less(l) || op == BinaryOp::LessEqual(l) || op == BinaryOp::Greater(l)
                || op == BinaryOp::GreaterEqual(l)) && !(a.value is Num && b.value is Num)
                && !(a.value is Str && b.value is Str) ==> (binary_result(op, a, b) is Err
                && binary_result(op, a, b)->Err_0 is Runtime),
        a.value is Num && b.value is Num ==> {
            let (x, y) = (a.value->Num_0, b.value->Num_0);
            &&& binary_result(BinaryOp::Less(l), a, b) == Ok::<Obj, Diag>(
                Obj { value: Value::Bool(x < y), loc: l },
            )
            &&& binary_result(BinaryOp::LessEqual(l), a, b) == Ok::<Obj, Diag>(
                Obj { value: Value::Bool(x <= y), loc: l },
            )
            &&& binary_result(BinaryOp::Greater(l), a, b) == Ok::<Obj, Diag>(
                Obj { value: Value::Bool(x > y), loc: l },
            )
            &&& binary_result(BinaryOp::GreaterEqual(l), a, b) == Ok::<Obj, Diag>(
                Obj { value: Value::Bool(x >= y), loc: l },
            )
        },
        a.value is Str && b.value is Str ==> {
            let (x, y) = (a.value->Str_0, b.value->Str_0);
            &&& binary_result(BinaryOp::Less(l), a, b) == Ok::<Obj, Diag>(
                Obj { value: Value::Bool(seq_cmp(x, y) == Ordering::Less), loc: l },
            )
            &&& binary_result(BinaryOp::Greater(l), a, b) == binary_result(BinaryOp::Less(l), b, a)
            &&& binary_result(BinaryOp::GreaterEqual(l), a, b) == Ok::<Obj, Diag>(
                Obj { value: Value::Bool(seq_cmp(x, y) != Ordering::Less), loc: l },
            )
        },
{
    if a.value is Str && b.value is Str {
        lemma_seq_cmp_flip(a.value->Str_0, b.value->Str_0);
        lemma_seq_cmp_flip(b.value->Str_0, a.value->Str_0);
    }
}

/// `and` returns a falsy left operand and `or` a truthy one without
/// evaluating the right operand, whatever it is.
pub proof fn short_circuit_laws(env: Scopes, left: Expr, right: Expr, l: SrcLocation)
    requires
        eval(env, left).0 is Ok,
    ensures
        !truthy(eval(env, left).0->Ok_0.value) ==> eval(
            env,
            Expr::Logical(Box::new(left), LogicalOp::And(l), Box::new(right), l),
        ) == eval(env, left),
        truthy(eval(env, left).0->Ok_0.value) ==> eval(
            env,
            Expr::Logical(Box::new(left), LogicalOp::Or(l), Box::new(right), l),
        ) == eval(env, left),
{
}

/// Assigning to a name that no scope binds is a runtime error that names
/// it, and changes no variable.
pub proof fn assignment_to_undefined(env: Scopes, name: Token, value: Expr, l: SrcLocation)
    requires
        eval(env, value).0 is Ok,
        lookup(eval(env, value).1, name.lexeme@) is None,
    ensures
        eval(env, Expr::Assign(name, Box::new(value), l)) == (
            Err::<Obj, Diag>(undefined_variable(name.lexeme@, l)),
            eval(env, value).1,
        ),
{
    lemma_assign_needs_binding(eval(env, value).1, name.lexeme@, eval(env, value).0->Ok_0);
}

spec fn ten_pow(k: nat) -> int
    decreases k,
{
    if k == 0 {
        1
    } else {
        10 * ten_pow((k - 1) as nat)
    }
}

spec fn zeros(n: nat) -> Seq<char> {
    Seq::new(n, |i: int| '0')
}

proof fn lemma_digit_char(d: int)
    requires
        0 <= d < 10,
    ensures
        is_digit(digit_char(d)),
        digit_value(digit_char(d)) == d,
{
}

proof fn lemma_ten_pow_positive(k: nat)
    ensures
        ten_pow(k) >= 1,
    decreases k,
{
    if k > 0 {
        lemma_ten_pow_positive((k - 1) as nat);
    }
}

proof fn lemma_nat_digits(n: nat)
    ensures
        nat_digits(n).len() >= 1,
        forall|i: int| 0 <= i < nat_digits(n).len() ==> is_digit(#[trigger] nat_digits(n)[i]),
        digits_value(nat_digits(n)) == n,
    decreases n,
{
    lemma_digit_char((n % 10) as int);
    let d = nat_digits(n);
    if n >= 10 {
        lemma_nat_digits(n / 10);
        assert(d.drop_last() =~= nat_digits(n / 10));
        assert(d.last() == digit_char((n % 10) as int));
        assert(digits_value(d) == 10 * digits_value(nat_digits(n / 10)) + digit_value(
            digit_char((n % 10) as int),
        ));
    } else {
        assert(d.drop_last() =~= Seq::<char>::empty());
        assert(digits_value(Seq::<char>::empty()) == 0);
        assert(d.last() == digit_char(n as int));
    }
}

proof fn lemma_padded(f: nat, k: nat)
    ensures
        padded_digits(f, k).len() == k,
        forall|i: int| 0 <= i < k ==> is_digit(#[trigger] padded_digits(f, k)[i]),
        digits_value(padded_digits(f, k)) == (f as int) % ten_pow(k),
    decreases k,
{
    lemma_ten_pow_positive(k);
    if k > 0 {
        let k1 = (k - 1) as nat;
        lemma_padded(f / 10, k1);
        lemma_digit_char((f % 10) as int);
        lemma_ten_pow_positive(k1);
        let p = padded_digits(f, k);
        assert(p.drop_last() =~= padded_digits(f / 10, k1));
        lemma_breakdown(f as int, 10, ten_pow(k1));
        assert(ten_pow(k) == 10 * ten_pow(k1));
    } else {
        assert(f % 1 == 0);
    }
}

proof fn lemma_zeros_value(n: nat)
    ensures
        digits_value(zeros(n)) == 0,
    decreases n,
{
    if n > 0 {
        assert(zeros(n).drop_last() =~= zeros((n - 1) as nat));
        lemma_zeros_value((n - 1) as nat);
    } else {
        assert(zeros(0) =~= Seq::<char>::empty());
    }
}

proof fn lemma_trim_zeros(s: Seq<char>)
    ensures
        trim_zeros(s).len() <= s.len(),
        s =~= trim_zeros(s) + zeros((s.len() - trim_zeros(s).len()) as nat),
        trim_zeros(s).len() > 0 ==> trim_zeros(s).last() != '0',
    decreases s.len(),
{
    if s.len() > 0 && s.last() == '0' {
        lemma_trim_zeros(s.drop_last());
        let t = trim_zeros(s.drop_last());
        let n = (s.len() - 1 - t.len()) as nat;
        assert(zeros(n).push('0') =~= zeros(n + 1));
        assert(s =~= s.drop_last().push('0'));
    }
}

proof fn lemma_run_end_exact(src: Seq<char>, i: int, j: int, k: CharClass)
    requires
        0 <= i <= j <= src.len(),
        forall|m: int| i <= m < j ==> crate::scanner::in_class(k, #[trigger] src[m]),
        j == src.len() || !crate::scanner::in_class(k, src[j]),
    ensures
        run_end(src, i, k) == j,
    decreases j - i,
{
    if i < j {
        lemma_run_end_exact(src, i + 1, j, k);
    }
}

/// The value of the rendered fractional digits of `f`.
proof fn lemma_fraction_text(f: nat)
    requires
        0 < f < SCALE,
    ensures
        trim_zeros(padded_digits(f, FRACTION_DIGITS as nat)).len() >= 1,
        forall|i: int|
            0 <= i < trim_zeros(padded_digits(f, FRACTION_DIGITS as nat)).len() ==> is_digit(
                #[trigger] trim_zeros(padded_digits(f, FRACTION_DIGITS as nat))[i],
            ),
        digits_value(six_digits(trim_zeros(padded_digits(f, FRACTION_DIGITS as nat)))) == f,
{
    let p = padded_digits(f, 6);
    let t = trim_zeros(p);
    lemma_padded(f, 6);
    reveal_with_fuel(ten_pow, 7);
    assert(ten_pow(6) == 1_000_000);
    assert(digits_value(p) == f);
    lemma_trim_zeros(p);
    assert forall|i: int| 0 <= i < t.len() implies is_digit(#[trigger] t[i]) by {
        assert(t[i] == p[i]);
    }
    if t.len() == 0 {
        assert(p =~= zeros(6));
        lemma_zeros_value(6);
    }
    if t.len() == 6 {
        assert(six_digits(t) =~= p);
    } else {
        assert(six_digits(t) =~= p);
    }
}

/// A non-negative number's text scans back to a single number token with
/// the same value, followed by the end of input.
pub proof fn number_text_round_trip(v: int)
    requires
        0 <= v <= MAX_SCALED,
    ensures
        scan(render_number(v)) is Ok,
        scan(render_number(v))->Ok_0.len() == 2,
        scan(render_number(v))->Ok_0[0].kind == TokenKind::Number,
        scan(render_number(v))->Ok_0[0].number == v,
        scan(render_number(v))->Ok_0[0].lexeme == render_number(v),
        scan(render_number(v))->Ok_0[1].kind == TokenKind::Eof,
{
    let src = render_number(v);
    let m = v as nat;
    let w = m / (SCALE as nat);
    let f = m % (SCALE as nat);
    let d = nat_digits(w);
    lemma_nat_digits(w);
    let l0 = SrcLocation { line: 1, col: 0 };
    vstd::arithmetic::div_mod::lemma_fundamental_div_mod(m as int, 1_000_000);
    assert(v == w * SCALE + f);
    assert(src == render_magnitude(m));
    assert(is_digit(src[0]));
    if f == 0 {
        assert(src == d);
        lemma_run_end_exact(src, 0, src.len() as int, CharClass::Digit);
        assert(src.subrange(0, src.len() as int) =~= src);
        assert(six_digits(Seq::empty()) =~= zeros(6));
        lemma_zeros_value(6);
        assert(literal_scaled(d, Seq::empty()) == v);
    } else {
        let t = trim_zeros(padded_digits(f, FRACTION_DIGITS as nat));
        lemma_fraction_text(f);
        assert(src == d + seq!['.'] + t);
        let e1 = d.len() as int;
        assert(src[e1] == '.');
        lemma_run_end_exact(src, 0, e1, CharClass::Digit);
        assert forall|i: int| e1 + 1 <= i < src.len() implies crate::scanner::in_class(
            CharClass::Digit,
            #[trigger] src[i],
        ) by {
            assert(src[i] == t[i - e1 - 1]);
        }
        lemma_run_end_exact(src, e1 + 1, src.len() as int, CharClass::Digit);
        assert(src.subrange(0, e1) =~= d);
        assert(src.subrange(e1 + 1, src.len() as int) =~= t);
        assert(is_digit(src[e1 + 1]));
        assert(literal_scaled(d, t) == v);
    }
    assert(lex_step(src, 0, l0) is Ok);
    assert(scan_from(src, src.len() as int, crate::scanner::loc_after(src, 0, src.len() as int, l0))
        is Ok);
}

/// Parsing does not stop at a syntax error: the failing declaration's
/// error is recorded, parsing resumes past the next statement boundary,
/// and the errors found from there on follow it in the same result.
pub proof fn parse_reports_every_error(ts: Seq<Token>, p: int)
    requires
        0 <= p <= ts.len(),
        !at_end(ts, p),
        p_declaration(ts, p).0 is Err,
    ensures
        p < synchronize(ts, p_declaration(ts, p).1) <= ts.len(),
        p_program(ts, p).1 == seq![p_declaration(ts, p).0->Err_0] + p_program(
            ts,
            synchronize(ts, p_declaration(ts, p).1),
        ).1,
{
    lemma_declaration_progress(ts, p);
    let q = p_declaration(ts, p).1;
    lemma_sync_loop(ts, if at_end(ts, q) { q } else { q + 1 });
}

proof fn lemma_eval_depth(env: Scopes, e: Expr)
    ensures
        eval(env, e).1.len() == env.len(),
    decreases e,
{
    match e {
        Expr::Literal(_) => {},
        Expr::Grouping(inner, _) => lemma_eval_depth(env, *inner),
        Expr::Unary(u) => lemma_eval_depth(env, *u.expr),
        Expr::Binary(b) => {
            lemma_eval_depth(env, *b.left);
            lemma_eval_depth(eval(env, *b.left).1, *b.right);
        },
        Expr::Logical(left, _, right, _) => {
            lemma_eval_depth(env, *left);
            lemma_eval_depth(eval(env, *left).1, *right);
        },
        Expr::Variable(_, _) => {},
        Expr::Assign(name, value, _) => {
            lemma_eval_depth(env, *value);
            let (r, env1) = eval(env, *value);
            if r is Ok {
                lemma_assign_keeps_depth(env1, name.lexeme@, r->Ok_0);
            }
        },
    }
}

proof fn lemma_exec_depth(env: Scopes, s: Stmt)
    requires
        env.len() >= 1,
    ensures
        exec_stmt(env, s).1.len() == env.len(),
    decreases s,
{
    match s {
        Stmt::Print(e, _) => lemma_eval_depth(env, e),
        Stmt::Expr(e, _) => lemma_eval_depth(env, e),
        Stmt::Var(_, init, _) => {
            if init is Some {
                lemma_eval_depth(env, init->0);
            }
        },
        Stmt::Block(stmts, _) => {
            lemma_exec_all_depth(env.push(Map::empty()), stmts@);
        },
        Stmt::If(cond, then_branch, else_branch, _) => {
            lemma_eval_depth(env, cond);
            let env1 = eval(env, cond).1;
            lemma_exec_depth(env1, *then_branch);
            if else_branch is Some {
                lemma_exec_depth(env1, *else_branch->0);
            }
        },
    }
}

proof fn lemma_exec_all_depth(env: Scopes, ss: Seq<Stmt>)
    requires
        env.len() >= 1,
    ensures
        exec_stmts(env, ss).1.len() == env.len(),
    decreases ss,
{
    if ss.len() > 0 {
        lemma_exec_depth(env, ss[0]);
        lemma_exec_all_depth(exec_stmt(env, ss[0]).1, ss.drop_first());
    }
}

/// A block runs its statements in a new innermost scope; leaving it drops
/// only that scope, so the enclosing scopes keep every change the block's
/// statements made to them, and the block's own definitions are gone.
pub proof fn block_scope_law(env: Scopes, block: Stmt)
    requires
        env.len() >= 1,
        block is Block,
    ensures
        ({
            let inner = exec_stmts(env.push(Map::empty()), block->Block_0@);
            &&& inner.1.len() == env.len() + 1
            &&& exec_stmt(env, block) == (inner.0, inner.1.drop_last(), inner.2)
            &&& exec_stmt(env, block).1.len() == env.len()
        }),
{
    lemma_exec_all_depth(env.push(Map::empty()), block->Block_0@);
}

} // verus!
