use vstd::prelude::*;
use crate::ast::LiteralData;
use crate::location::SrcLocation;
use crate::number::{render_number, Number};
use crate::text::{push_char, push_str};
use core::cmp::Ordering;

verus! {

/// What a runtime value is, without its location.
pub enum Value {
    Str(Seq<char>),
    Num(int),
    Bool(bool),
    Nil,
}

/// A runtime value together with the location it came from.
pub struct Obj {
    pub value: Value,
    pub loc: SrcLocation,
}

/// A runtime value of the language.
#[derive(Clone, Debug)]
pub enum LoxObj {
    String(String, SrcLocation),
    Number(Number, SrcLocation),
    Bool(bool, SrcLocation),
    Nil(SrcLocation),
}

impl View for LoxObj {
    type V = Obj;

    open spec fn view(&self) -> Obj {
        match self {
            LoxObj::String(s, l) => Obj { value: Value::Str(s@), loc: *l },
            LoxObj::Number(n, l) => Obj { value: Value::Num(n@), loc: *l },
            LoxObj::Bool(b, l) => Obj { value: Value::Bool(*b), loc: *l },
            LoxObj::Nil(l) => Obj { value: Value::Nil, loc: *l },
        }
    }
}

/// The value that a literal stands for.
pub open spec fn literal_obj(l: LiteralData) -> Obj {
    match l {
        LiteralData::String(s, loc) => Obj { value: Value::Str(s@), loc },
        LiteralData::Number(n, loc) => Obj { value: Value::Num(n@), loc },
        LiteralData::Bool(b, loc) => Obj { value: Value::Bool(b), loc },
        LiteralData::Nil(loc) => Obj { value: Value::Nil, loc },
    }
}

/// Only `false` and `nil` are falsy.
pub open spec fn truthy(v: Value) -> bool {
    !(v == Value::Bool(false) || v == Value::Nil)
}

/// Equality holds only between values of the same kind with equal contents.
pub open spec fn values_equal(a: Value, b: Value) -> bool {
    match (a, b) {
        (Value::Nil, Value::Nil) => true,
        (Value::Bool(x), Value::Bool(y)) => x == y,
        (Value::Num(x), Value::Num(y)) => x == y,
        (Value::Str(x), Value::Str(y)) => x == y,
        _ => false,
    }
}

pub open spec fn int_cmp(a: int, b: int) -> Ordering {
    if a < b {
        Ordering::Less
    } else if a == b {
        Ordering::Equal
    } else {
        Ordering::Greater
    }
}

/// Lexicographic order of character sequences.
pub open spec fn seq_cmp(a: Seq<char>, b: Seq<char>) -> Ordering
    decreases a.len(),
{
    if a.len() == 0 {
        if b.len() == 0 {
            Ordering::Equal
        } else {
            Ordering::Less
        }
    } else if b.len() == 0 {
        Ordering::Greater
    } else if a[0] < b[0] {
        Ordering::Less
    } else if a[0] > b[0] {
        Ordering::Greater
    } else {
        seq_cmp(a.drop_first(), b.drop_first())
    }
}

/// Ordering is defined between two numbers and between two strings only.
pub open spec fn compare_values(a: Value, b: Value) -> Option<Ordering> {
    match (a, b) {
        (Value::Num(x), Value::Num(y)) => Some(int_cmp(x, y)),
        (Value::Str(x), Value::Str(y)) => Some(seq_cmp(x, y)),
        _ => None,
    }
}

/// The text that `print` writes for a value.
pub open spec fn display_text(v: Value) -> Seq<char> {
    match v {
        Value::Str(s) => s,
        Value::Num(n) => render_number(n),
        Value::Bool(b) => if b {
            "true"@
        } else {
            "false"@
        },
        Value::Nil => "nil"@,
    }
}

/// The text that names a value's kind and contents in a diagnostic.
pub open spec fn describe_text(v: Value) -> Seq<char> {
    match v {
        Value::Str(s) => "string \""@ + s + "\""@,
        Value::Num(n) => "number "@ + render_number(n),
        Value::Bool(b) => "boolean "@ + display_text(Value::Bool(b)),
        Value::Nil => "nil"@,
    }
}

fn string_cmp(a: &String, b: &String) -> (r: Ordering)
    ensures
        r == seq_cmp(a@, b@),
{
    let sa = a.as_str();
    let sb = b.as_str();
    let la = sa.unicode_len();
    let lb = sb.unicode_len();
    let mut i: usize = 0;
    assert(a@.skip(0) =~= a@);
    assert(b@.skip(0) =~= b@);
    while i < la && i < lb
        invariant
            i <= la == a@.len(),
            i <= lb == b@.len(),
            sa@ == a@,
            sb@ == b@,
            seq_cmp(a@, b@) == seq_cmp(a@.skip(i as int), b@.skip(i as int)),
        decreases la - i,
    {
        let ca = sa.get_char(i);
        let cb = sb.get_char(i);
        assert(a@.skip(i as int)[0] == ca);
        assert(b@.skip(i as int)[0] == cb);
        if ca < cb {
            return Ordering::Less;
        }
        if ca > cb {
            return Ordering::Greater;
        }
        assert(a@.skip(i as int).drop_first() =~= a@.skip(i + 1));
        assert(b@.skip(i as int).drop_first() =~= b@.skip(i + 1));
        i = i + 1;
    }
    assert(a@.skip(i as int).len() == la - i);
    assert(b@.skip(i as int).len() == lb - i);
    if i < la {
        Ordering::Greater
    } else if i < lb {
        Ordering::Less
    } else {
        Ordering::Equal
    }
}

impl LoxObj {
    /// The value that a literal stands for, at the literal's location.
    pub fn from_literal(literal: &LiteralData) -> (r: LoxObj)
        ensures
            r@ == literal_obj(*literal),
    {
        match literal {
            LiteralData::String(s, loc) => LoxObj::String(s.clone(), *loc),
            LiteralData::Number(n, loc) => LoxObj::Number(*n, *loc),
            LiteralData::Bool(b, loc) => LoxObj::Bool(*b, *loc),
            LiteralData::Nil(loc) => LoxObj::Nil(*loc),
        }
    }

    pub fn location(&self) -> (r: SrcLocation)
        ensures
            r == self@.loc,
    {
        match self {
            LoxObj::String(_, l) => *l,
            LoxObj::Number(_, l) => *l,
            LoxObj::Bool(_, l) => *l,
            LoxObj::Nil(l) => *l,
        }
    }

    /// A copy of the value.
    pub fn copy(&self) -> (r: LoxObj)
        ensures
            r@ == self@,
    {
        match self {
            LoxObj::String(s, l) => LoxObj::String(s.clone(), *l),
            LoxObj::Number(n, l) => LoxObj::Number(n.copy(), *l),
            LoxObj::Bool(b, l) => LoxObj::Bool(*b, *l),
            LoxObj::Nil(l) => LoxObj::Nil(*l),
        }
    }

    pub fn is_truthy(&self) -> (r: bool)
        ensures
            r == truthy(self@.value),
    {
        match self {
            LoxObj::Bool(b, _) => *b,
            LoxObj::Nil(_) => false,
            _ => true,
        }
    }

    pub fn is_equal(&self, other: &LoxObj) -> (r: bool)
        ensures
            r == values_equal(self@.value, other@.value),
    {
        match (self, other) {
            (LoxObj::Nil(_), LoxObj::Nil(_)) => true,
            (LoxObj::Bool(x, _), LoxObj::Bool(y, _)) => *x == *y,
            (LoxObj::Number(x, _), LoxObj::Number(y, _)) => x.eq(y),
            (LoxObj::String(x, _), LoxObj::String(y, _)) => *x == *y,
            _ => false,
        }
    }

    pub fn compare(&self, other: &LoxObj) -> (r: Option<Ordering>)
        ensures
            r == compare_values(self@.value, other@.value),
    {
        match (self, other) {
            (LoxObj::Number(x, _), LoxObj::Number(y, _)) => {
                if x.lt(y) {
                    Some(Ordering::Less)
                } else if x.eq(y) {
                    Some(Ordering::Equal)
                } else {
                    Some(Ordering::Greater)
                }
            },
            (LoxObj::String(x, _), LoxObj::String(y, _)) => Some(string_cmp(x, y)),
            _ => None,
        }
    }

    /// Appends the text that `print` writes for this value.
    pub fn push_display(&self, s: &mut String)
        ensures
            final(s)@ == old(s)@ + display_text(self@.value),
    {
        match self {
            LoxObj::String(t, _) => push_str(s, t.as_str()),
            LoxObj::Number(n, _) => {
                let t = n.render();
                push_str(s, t.as_str());
            },
            LoxObj::Bool(b, _) => {
                if *b {
                    push_str(s, "true");
                } else {
                    push_str(s, "false");
                }
            },
            LoxObj::Nil(_) => push_str(s, "nil"),
        }
    }

    /// The text that `print` writes for this value.
    pub fn render(&self) -> (r: String)
        ensures
            r@ == display_text(self@.value),
    {
        let mut s = String::new();
        self.push_display(&mut s);
        assert(s@ =~= display_text(self@.value));
        s
    }

    /// Appends the text that names this value's kind and contents.
    pub fn push_description(&self, s: &mut String)
        ensures
            final(s)@ == old(s)@ + describe_text(self@.value),
    {
        let ghost s0 = s@;
        match self {
            LoxObj::String(t, _) => {
                push_str(s, "string \"");
                push_str(s, t.as_str());
                push_char(s, '"');
                proof {
                    reveal_strlit("\"");
                }
            },
            LoxObj::Number(_, _) => {
                push_str(s, "number ");
                self.push_display(s);
            },
            LoxObj::Bool(_, _) => {
                push_str(s, "boolean ");
                self.push_display(s);
            },
            LoxObj::Nil(_) => push_str(s, "nil"),
        }
        assert(s@ =~= s0 + describe_text(self@.value));
    }

    pub fn describe(&self) -> (r: String)
        ensures
            r@ == describe_text(self@.value),
    {
        let mut s = String::new();
        self.push_description(&mut s);
        assert(s@ =~= describe_text(self@.value));
        s
    }
}

} // verus!
