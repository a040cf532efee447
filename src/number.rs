use vstd::prelude::*;
use crate::text::{digit_char, digit_to_char, digit_value, digits_value, is_digit, nat_digits, push_char, push_decimal};

verus! {

/// Numbers are decimal fixed-point values with this many fractional digits.
pub const FRACTION_DIGITS: usize = 6;

/// A number `n` is held as the integer `n * SCALE`.
pub const SCALE: i128 = 1_000_000;

/// The largest magnitude a scaled number may have.
pub const MAX_SCALED: i128 = 999_999_999_999_999_999;

pub open spec fn fits(v: int) -> bool {
    -MAX_SCALED <= v <= MAX_SCALED
}

/// The scaled product of two scaled numbers, truncated toward zero.
pub open spec fn mul_value(a: int, b: int) -> int {
    let p = a * b;
    if p >= 0 {
        p / (SCALE as int)
    } else {
        -((-p) / (SCALE as int))
    }
}

/// The scaled quotient of two scaled numbers, truncated toward zero.
pub open spec fn div_value(a: int, b: int) -> int {
    let m = (if a >= 0 { a } else { -a }) * SCALE / (if b >= 0 { b } else { -b });
    if (a < 0) == (b < 0) {
        m
    } else {
        -m
    }
}

/// The integer part of a scaled number, truncated toward zero.
pub open spec fn whole_value(a: int) -> int {
    if a >= 0 {
        a / (SCALE as int)
    } else {
        -((-a) / (SCALE as int))
    }
}

/// The `k` lowest decimal digits of `f`, padded with leading zeros.
pub open spec fn padded_digits(f: nat, k: nat) -> Seq<char>
    decreases k,
{
    if k == 0 {
        Seq::empty()
    } else {
        padded_digits(f / 10, (k - 1) as nat).push(digit_char((f % 10) as int))
    }
}

/// `s` without its trailing `'0'` characters.
pub open spec fn trim_zeros(s: Seq<char>) -> Seq<char>
    decreases s.len(),
{
    if s.len() > 0 && s.last() == '0' {
        trim_zeros(s.drop_last())
    } else {
        s
    }
}

/// The text of a non-negative scaled number: its integer part, then a point
/// and the fractional digits without trailing zeros when there are any.
pub open spec fn render_magnitude(m: nat) -> Seq<char> {
    let whole = nat_digits(m / (SCALE as nat));
    let frac = m % (SCALE as nat);
    if frac == 0 {
        whole
    } else {
        whole + seq!['.'] + trim_zeros(padded_digits(frac, FRACTION_DIGITS as nat))
    }
}

/// The text of a scaled number.
pub open spec fn render_number(v: int) -> Seq<char> {
    if v < 0 {
        seq!['-'] + render_magnitude((-v) as nat)
    } else {
        render_magnitude(v as nat)
    }
}

/// The first six fractional digits of a literal, padded with zeros.
pub open spec fn six_digits(f: Seq<char>) -> Seq<char> {
    if f.len() >= FRACTION_DIGITS {
        f.take(FRACTION_DIGITS as int)
    } else {
        f + Seq::new((FRACTION_DIGITS - f.len()) as nat, |i: int| '0')
    }
}

/// The scaled value of the fractional digits of a literal; digits past the
/// sixth are dropped.
pub open spec fn fraction_scaled(f: Seq<char>) -> int {
    digits_value(six_digits(f)) as int
}

/// The scaled value of a number literal with the given integer and
/// fractional digits.
pub open spec fn literal_scaled(whole: Seq<char>, frac: Seq<char>) -> int {
    digits_value(whole) * SCALE + fraction_scaled(frac)
}

/// Why an arithmetic operation has no result.
#[derive(Clone, Copy, Debug, PartialEq, Eq, Structural)]
pub enum NumError {
    OutOfRange,
    DivisionByZero,
}

/// A decimal fixed-point number.
#[derive(Clone, Copy, Debug)]
pub struct Number {
    scaled: i128,
}

impl View for Number {
    type V = int;

    closed spec fn view(&self) -> int {
        self.scaled as int
    }
}

impl Number {
    #[verifier::type_invariant]
    spec fn in_range(self) -> bool {
        fits(self.scaled as int)
    }

    pub fn from_scaled(v: i128) -> (r: Option<Number>)
        ensures
            r is Some <==> fits(v as int),
            r is Some ==> r->0@ == v,
    {
        if -MAX_SCALED <= v && v <= MAX_SCALED {
            Some(Number { scaled: v })
        } else {
            None
        }
    }

    pub fn from_integer(n: i64) -> (r: Option<Number>)
        ensures
            r is Some <==> fits(n * SCALE),
            r is Some ==> r->0@ == n * SCALE,
    {
        if -999_999_999_999 <= n && n <= 999_999_999_999 {
            Number::from_scaled(n as i128 * SCALE)
        } else {
            None
        }
    }

    /// The value of a number literal whose integer digits are
    /// `cs[start..dot]` and whose fractional digits are `cs[frac_start..end]`;
    /// `None` when it is out of range.
    pub fn from_literal(cs: &Vec<char>, start: usize, dot: usize, frac_start: usize, end: usize) -> (r:
        Option<Number>)
        requires
            start <= dot <= frac_start <= end <= cs@.len(),
            forall|i: int| start <= i < dot ==> is_digit(#[trigger] cs@[i]),
            forall|i: int| frac_start <= i < end ==> is_digit(#[trigger] cs@[i]),
        ensures
            ({
                let v = literal_scaled(
                    cs@.subrange(start as int, dot as int),
                    cs@.subrange(frac_start as int, end as int),
                );
                &&& r is Some <==> fits(v)
                &&& r is Some ==> r->0@ == v
            }),
    {
        let cap: u128 = 1_000_000_000_000;
        let mut whole: u128 = 0;
        let mut i = start;
        assert(cs@.subrange(start as int, start as int) =~= Seq::<char>::empty());
        while i < dot
            invariant
                start <= i <= dot <= cs@.len(),
                forall|j: int| start <= j < dot ==> is_digit(#[trigger] cs@[j]),
                cap == 1_000_000_000_000,
                whole <= cap,
                whole == if digits_value(cs@.subrange(start as int, i as int)) < cap {
                    digits_value(cs@.subrange(start as int, i as int)) as int
                } else {
                    cap as int
                },
            decreases dot - i,
        {
            let ghost prev = cs@.subrange(start as int, i as int);
            let d = (cs[i] as u32 - '0' as u32) as u128;
            assert(d <= 9);
            assert(cs@.subrange(start as int, i + 1).drop_last() =~= prev);
            let w = whole * 10 + d;
            whole = if w < cap {
                w
            } else {
                cap
            };
            i = i + 1;
        }
        let ghost wd = cs@.subrange(start as int, dot as int);
        let ghost fd = cs@.subrange(frac_start as int, end as int);
        if whole >= cap {
            assert(digits_value(wd) * SCALE >= 1_000_000_000_000_000_000) by (nonlinear_arith)
                requires
                    digits_value(wd) >= 1_000_000_000_000,
            ;
            return None;
        }
        let mut frac: u128 = 0;
        let mut k: usize = 0;
        let ghost six = six_digits(fd);
        assert(six.take(0) =~= Seq::<char>::empty());
        while k < FRACTION_DIGITS
            invariant
                k <= FRACTION_DIGITS,
                start <= dot <= frac_start <= end <= cs@.len(),
                fd == cs@.subrange(frac_start as int, end as int),
                six == six_digits(fd),
                forall|j: int| frac_start <= j < end ==> is_digit(#[trigger] cs@[j]),
                frac == digits_value(six.take(k as int)),
                frac < 1_000_000,
                frac < pow10_of(k as nat),
            decreases FRACTION_DIGITS - k,
        {
            let d: u128 = if k < end - frac_start {
                (cs[frac_start + k] as u32 - '0' as u32) as u128
            } else {
                0
            };
            assert(d <= 9);
            assert(six.take(k + 1).drop_last() =~= six.take(k as int));
            assert(six[k as int] == if k < end - frac_start {
                cs@[frac_start + k]
            } else {
                '0'
            });
            assert(pow10_of((k + 1) as nat) <= 1_000_000) by {
                lemma_pow10_at_most_six((k + 1) as nat);
            }
            frac = frac * 10 + d;
            k = k + 1;
        }
        assert(six.take(6) =~= six);
        let v = whole * (SCALE as u128) + frac;
        Number::from_scaled(v as i128)
    }

    pub fn zero() -> (r: Number)
        ensures
            r@ == 0,
    {
        Number { scaled: 0 }
    }

    pub fn scaled(&self) -> (r: i128)
        ensures
            r == self@,
            fits(r as int),
    {
        proof {
            use_type_invariant(self);
        }
        self.scaled
    }

    pub fn copy(&self) -> (r: Number)
        ensures
            r@ == self@,
    {
        proof {
            use_type_invariant(self);
        }
        Number { scaled: self.scaled }
    }

    pub fn add(&self, other: &Number) -> (r: Result<Number, NumError>)
        ensures
            r is Ok <==> fits(self@ + other@),
            r is Ok ==> r->Ok_0@ == self@ + other@,
            r is Err ==> r->Err_0 == NumError::OutOfRange,
    {
        let a = self.scaled();
        let b = other.scaled();
        match Number::from_scaled(a + b) {
            Some(n) => Ok(n),
            None => Err(NumError::OutOfRange),
        }
    }

    pub fn sub(&self, other: &Number) -> (r: Result<Number, NumError>)
        ensures
            r is Ok <==> fits(self@ - other@),
            r is Ok ==> r->Ok_0@ == self@ - other@,
            r is Err ==> r->Err_0 == NumError::OutOfRange,
    {
        let a = self.scaled();
        let b = other.scaled();
        match Number::from_scaled(a - b) {
            Some(n) => Ok(n),
            None => Err(NumError::OutOfRange),
        }
    }

    pub fn neg(&self) -> (r: Number)
        ensures
            r@ == -self@,
    {
        let a = self.scaled();
        Number { scaled: -a }
    }

    pub fn mul(&self, other: &Number) -> (r: Result<Number, NumError>)
        ensures
            r is Ok <==> fits(mul_value(self@, other@)),
            r is Ok ==> r->Ok_0@ == mul_value(self@, other@),
            r is Err ==> r->Err_0 == NumError::OutOfRange,
    {
        let a = self.scaled();
        let b = other.scaled();
        assert(-1_000_000_000_000_000_000_000_000_000_000_000_000 < a * b
            < 1_000_000_000_000_000_000_000_000_000_000_000_000) by (nonlinear_arith)
            requires
                -1_000_000_000_000_000_000 < a < 1_000_000_000_000_000_000,
                -1_000_000_000_000_000_000 < b < 1_000_000_000_000_000_000,
        ;
        let p = a * b;
        let q = if p >= 0 {
            p / SCALE
        } else {
            -((-p) / SCALE)
        };
        match Number::from_scaled(q) {
            Some(n) => Ok(n),
            None => Err(NumError::OutOfRange),
        }
    }

    pub fn div(&self, other: &Number) -> (r: Result<Number, NumError>)
        ensures
            other@ == 0 ==> r == Err::<Number, NumError>(NumError::DivisionByZero),
            other@ != 0 ==> (r is Ok <==> fits(div_value(self@, other@))),
            r is Ok ==> r->Ok_0@ == div_value(self@, other@),
            other@ != 0 && r is Err ==> r->Err_0 == NumError::OutOfRange,
    {
        let a = self.scaled();
        let b = other.scaled();
        if b == 0 {
            return Err(NumError::DivisionByZero);
        }
        let ma = if a >= 0 {
            a
        } else {
            -a
        };
        let mb = if b >= 0 {
            b
        } else {
            -b
        };
        assert(0 <= ma * SCALE < 1_000_000_000_000_000_000_000_000) by (nonlinear_arith)
            requires
                0 <= ma < 1_000_000_000_000_000_000,
        ;
        let p = ma * SCALE;
        let m = p / mb;
        assert(p / mb <= p) by (nonlinear_arith)
            requires
                mb >= 1,
                p >= 0,
        ;
        let q = if (a < 0) == (b < 0) {
            m
        } else {
            -m
        };
        match Number::from_scaled(q) {
            Some(n) => Ok(n),
            None => Err(NumError::OutOfRange),
        }
    }

    /// The integer part, truncated toward zero.
    pub fn whole(&self) -> (r: i128)
        ensures
            r == whole_value(self@),
    {
        let a = self.scaled();
        if a >= 0 {
            a / SCALE
        } else {
            -((-a) / SCALE)
        }
    }

    pub fn eq(&self, other: &Number) -> (r: bool)
        ensures
            r == (self@ == other@),
    {
        self.scaled() == other.scaled()
    }

    pub fn lt(&self, other: &Number) -> (r: bool)
        ensures
            r == (self@ < other@),
    {
        self.scaled() < other.scaled()
    }

    /// The decimal text of the number.
    pub fn render(&self) -> (r: String)
        ensures
            r@ == render_number(self@),
    {
        let a = self.scaled();
        let mut s = String::new();
        let m: u128 = if a < 0 {
            push_char(&mut s, '-');
            (-a) as u128
        } else {
            a as u128
        };
        push_decimal(&mut s, m / (SCALE as u128));
        let frac = m % (SCALE as u128);
        if frac != 0 {
            push_char(&mut s, '.');
            push_fraction(&mut s, frac);
        }
        proof {
            let mm: nat = m as nat;
            assert(mm / (SCALE as nat) == m / (SCALE as u128));
            if a < 0 {
                assert(s@ =~= render_number(self@));
            } else {
                assert(s@ =~= render_number(self@));
            }
        }
        s
    }
}

/// Ten to the power `k`.
spec fn pow10_of(k: nat) -> int
    decreases k,
{
    if k == 0 {
        1
    } else {
        10 * pow10_of((k - 1) as nat)
    }
}

proof fn lemma_pow10_at_most_six(k: nat)
    requires
        k <= 6,
    ensures
        pow10_of(k) <= 1_000_000,
{
    reveal_with_fuel(pow10_of, 7);
}

/// Appends the `k` lowest decimal digits of `f`, padded with leading zeros.
fn push_padded(s: &mut String, f: u128, k: usize)
    ensures
        final(s)@ == old(s)@ + padded_digits(f as nat, k as nat),
    decreases k,
{
    if k > 0 {
        push_padded(s, f / 10, k - 1);
        let c = digit_to_char(f % 10);
        push_char(s, c);
    }
    assert(final(s)@ =~= old(s)@ + padded_digits(f as nat, k as nat));
}

/// Appends the fractional digits of `frac`, padded to the full width and
/// without trailing zeros.
fn push_fraction(s: &mut String, frac: u128)
    ensures
        final(s)@ == old(s)@ + trim_zeros(padded_digits(frac as nat, FRACTION_DIGITS as nat)),
{
    let mut f = frac;
    let mut k = FRACTION_DIGITS;
    while k > 0 && f % 10 == 0
        invariant
            k <= FRACTION_DIGITS,
            trim_zeros(padded_digits(frac as nat, FRACTION_DIGITS as nat)) == trim_zeros(
                padded_digits(f as nat, k as nat),
            ),
        decreases k,
    {
        assert(padded_digits(f as nat, k as nat).last() == '0');
        assert(padded_digits(f as nat, k as nat).drop_last() =~= padded_digits(
            (f / 10) as nat,
            (k - 1) as nat,
        ));
        f = f / 10;
        k = k - 1;
    }
    assert(trim_zeros(padded_digits(f as nat, k as nat)) == padded_digits(f as nat, k as nat));
    push_padded(s, f, k);
}

} // verus!
