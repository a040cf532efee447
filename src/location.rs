use vstd::prelude::*;
use crate::text::{nat_digits, push_char, push_decimal};

verus! {

/// A position in the source text: a one-based line and a column.
#[derive(Clone, Copy, Debug, PartialEq, Eq, Structural)]
pub struct SrcLocation {
    pub line: usize,
    pub col: usize,
}

impl SrcLocation {
    pub fn new(line: usize, col: usize) -> (r: SrcLocation)
        ensures
            r.line == line,
            r.col == col,
    {
        SrcLocation { line, col }
    }
}

/// The text `line:col` of a location.
pub open spec fn location_text(l: SrcLocation) -> Seq<char> {
    nat_digits(l.line as nat) + seq![':'] + nat_digits(l.col as nat)
}

impl SrcLocation {
    /// Appends the text `line:col`.
    pub fn push_text(&self, s: &mut String)
        ensures
            final(s)@ == old(s)@ + location_text(*self),
    {
        let ghost s0 = s@;
        push_decimal(s, self.line as u128);
        push_char(s, ':');
        push_decimal(s, self.col as u128);
        assert(s@ =~= s0 + location_text(*self));
    }

    /// The text `line:col`.
    pub fn render(&self) -> (r: String)
        ensures
            r@ == location_text(*self),
    {
        let mut s = String::new();
        self.push_text(&mut s);
        assert(s@ =~= location_text(*self));
        s
    }
}

} // verus!
