use vstd::prelude::*;
use crate::location::{location_text, SrcLocation};
use crate::scanner::chars_of;
use crate::text::{nat_digits, push_char, push_decimal, push_str};

verus! {

/// What a diagnostic is, with its text as character sequences.
pub enum Diag {
    Internal(Seq<char>, SrcLocation),
    Syntax(Seq<char>, SrcLocation),
    Runtime(Seq<char>, SrcLocation),
    Multiple(Seq<Diag>),
}

/// A diagnostic of the lexer, the parser or the evaluator.
#[derive(Debug)]
pub enum RutoxError {
    /// The implementation broke one of its own invariants.
    Programmer(String, SrcLocation),
    Syntax(String, SrcLocation),
    Runtime(String, SrcLocation),
    /// Several syntax errors found in one pass, in order.
    Multiple(Vec<RutoxError>),
}

pub open spec fn diag_of(e: RutoxError) -> Diag
    decreases e,
{
    match e {
        RutoxError::Programmer(m, l) => Diag::Internal(m@, l),
        RutoxError::Syntax(m, l) => Diag::Syntax(m@, l),
        RutoxError::Runtime(m, l) => Diag::Runtime(m@, l),
        RutoxError::Multiple(v) => Diag::Multiple(diags_of(v@)),
    }
}

pub open spec fn diags_of(es: Seq<RutoxError>) -> Seq<Diag>
    decreases es,
{
    if es.len() == 0 {
        Seq::empty()
    } else {
        diags_of(es.drop_last()).push(diag_of(es.last()))
    }
}

impl View for RutoxError {
    type V = Diag;

    open spec fn view(&self) -> Diag {
        diag_of(*self)
    }
}

proof fn lemma_diags_of(es: Seq<RutoxError>)
    ensures
        diags_of(es).len() == es.len(),
        forall|i: int| 0 <= i < es.len() ==> #[trigger] diags_of(es)[i] == es[i]@,
    decreases es.len(),
{
    if es.len() > 0 {
        lemma_diags_of(es.drop_last());
    }
}

/// The one-line summary of a diagnostic: its kind and message.
pub open spec fn summary_text(d: Diag) -> Seq<char>
    decreases d,
{
    match d {
        Diag::Syntax(m, _) => "SyntaxError: "@ + m + "."@,
        Diag::Runtime(m, _) => "RuntimeError: "@ + m + "."@,
        Diag::Internal(m, _) => "ProgrammerError: "@ + m + "."@ + "\nThis is a bug in rutox."@,
        Diag::Multiple(ds) => summaries_text(ds),
    }
}

/// The summaries of several diagnostics, each ended by a newline.
pub open spec fn summaries_text(ds: Seq<Diag>) -> Seq<char>
    decreases ds,
{
    if ds.len() == 0 {
        Seq::empty()
    } else {
        summaries_text(ds.drop_last()) + summary_text(ds.last()) + "\n"@
    }
}

/// Where a diagnostic points: for several, where the first one points; the
/// start of the text when there is none.
pub open spec fn diag_location(d: Diag) -> SrcLocation
    decreases d,
{
    match d {
        Diag::Syntax(_, l) => l,
        Diag::Runtime(_, l) => l,
        Diag::Internal(_, l) => l,
        Diag::Multiple(ds) => if ds.len() > 0 {
            diag_location(ds[0])
        } else {
            SrcLocation { line: 1, col: 0 }
        },
    }
}

/// The lines of a text: the pieces between its newline characters.
pub open spec fn split_lines(cs: Seq<char>) -> Seq<Seq<char>>
    decreases cs.len(),
{
    if cs.len() == 0 {
        seq![Seq::empty()]
    } else {
        let before = split_lines(cs.drop_last());
        if cs.last() == '\n' {
            before.push(Seq::empty())
        } else {
            before.update(before.len() - 1, before.last().push(cs.last()))
        }
    }
}

pub open spec fn spaces(n: int) -> Seq<char> {
    Seq::new(if n > 0 { n as nat } else { 0 }, |i: int| ' ')
}

/// Whether line number `j` (from 1) exists among `n` lines.
pub open spec fn shown(j: int, n: int) -> bool {
    1 <= j <= n
}

/// The last line number shown around line `k`, among `n` lines.
pub open spec fn last_shown(k: int, n: int) -> int {
    if shown(k + 1, n) {
        k + 1
    } else if shown(k, n) {
        k
    } else if shown(k - 1, n) {
        k - 1
    } else {
        k
    }
}

/// The gutter of an excerpt line without a number.
pub open spec fn empty_column(w: int) -> Seq<char> {
    " "@ + spaces(w) + " | "@
}

/// The gutter of an excerpt line with number `j`, right-aligned to `w` digits.
pub open spec fn code_column(j: int, w: int) -> Seq<char> {
    " "@ + spaces(w - nat_digits(j as nat).len()) + nat_digits(j as nat) + " | "@
}

/// The excerpt row of line `j` when it is shown; the error line is followed
/// by a caret under column `col`.
pub open spec fn excerpt_row(lines: Seq<Seq<char>>, j: int, k: int, col: int, w: int) -> Seq<char> {
    if shown(j, lines.len() as int) {
        code_column(j, w) + lines[j - 1] + (if j == k {
            "\n"@ + empty_column(w) + spaces(col - 1) + "^ the error occurred here"@
        } else {
            Seq::empty()
        }) + "\n"@
    } else {
        Seq::empty()
    }
}

/// The lines around a location, numbered, between two empty gutters.
pub open spec fn excerpt_text(src: Seq<char>, l: SrcLocation) -> Seq<char> {
    let lines = split_lines(src);
    let k = l.line as int;
    let w = nat_digits(last_shown(k, lines.len() as int) as nat).len() as int;
    empty_column(w) + "\n"@ + excerpt_row(lines, k - 1, k, l.col as int, w) + excerpt_row(
        lines,
        k,
        k,
        l.col as int,
        w,
    ) + excerpt_row(lines, k + 1, k, l.col as int, w) + empty_column(w)
}

/// A diagnostic's place in a file and the excerpt around it.
pub open spec fn details_text(d: Diag, path: Seq<char>, src: Seq<char>) -> Seq<char> {
    "  --> "@ + path + ":"@ + location_text(diag_location(d)) + "\n"@ + excerpt_text(
        src,
        diag_location(d),
    )
}

fn push_spaces(s: &mut String, n: usize)
    ensures
        final(s)@ == old(s)@ + spaces(n as int),
{
    let mut i: usize = 0;
    let ghost s0 = s@;
    while i < n
        invariant
            i <= n,
            s@ == s0 + spaces(i as int),
        decreases n - i,
    {
        push_char(s, ' ');
        i = i + 1;
        assert(s@ =~= s0 + spaces(i as int));
    }
}

/// How many decimal digits `n` has.
fn digit_count(n: usize) -> (r: usize)
    ensures
        r == nat_digits(n as nat).len(),
{
    let t = crate::text::decimal_string(n as u128);
    t.as_str().unicode_len()
}

fn push_empty_column(s: &mut String, w: usize)
    ensures
        final(s)@ == old(s)@ + empty_column(w as int),
{
    let ghost s0 = s@;
    push_str(s, " ");
    push_spaces(s, w);
    push_str(s, " | ");
    assert(s@ =~= s0 + empty_column(w as int));
}

fn push_code_column(s: &mut String, j: usize, w: usize)
    ensures
        final(s)@ == old(s)@ + code_column(j as int, w as int),
{
    let ghost s0 = s@;
    let n = digit_count(j);
    push_str(s, " ");
    push_spaces(s, if w > n { w - n } else { 0 });
    push_decimal(s, j as u128);
    push_str(s, " | ");
    assert(spaces(if w > n { (w - n) as int } else { 0 }) =~= spaces(w - n));
    assert(s@ =~= s0 + code_column(j as int, w as int));
}

fn push_caret_line(s: &mut String, col: usize, w: usize)
    ensures
        final(s)@ == old(s)@ + ("\n"@ + empty_column(w as int) + spaces(col - 1)
            + "^ the error occurred here"@),
{
    let ghost s0 = s@;
    push_str(s, "\n");
    push_empty_column(s, w);
    push_spaces(s, if col > 0 { col - 1 } else { 0 });
    push_str(s, "^ the error occurred here");
    assert(spaces(if col > 0 { (col - 1) as int } else { 0 }) =~= spaces(col - 1));
    assert(s@ =~= s0 + ("\n"@ + empty_column(w as int) + spaces(col - 1)
        + "^ the error occurred here"@));
}

fn push_row(s: &mut String, lines: &Vec<String>, j: usize, k: usize, col: usize, w: usize)
    requires
        1 <= j <= lines@.len(),
    ensures
        final(s)@ == old(s)@ + excerpt_row(
            lines@.map_values(|l: String| l@),
            j as int,
            k as int,
            col as int,
            w as int,
        ),
{
    let ghost s0 = s@;
    let ghost ls = lines@.map_values(|l: String| l@);
    push_code_column(s, j, w);
    push_str(s, lines[j - 1].as_str());
    let ghost s1 = s@;
    assert(s1 == s0 + code_column(j as int, w as int) + ls[j - 1]);
    if j == k {
        push_caret_line(s, col, w);
    }
    push_str(s, "\n");
    assert(s@ =~= s0 + excerpt_row(ls, j as int, k as int, col as int, w as int));
}

/// The lines of `src`.
fn lines_of(src: &str) -> (r: Vec<String>)
    ensures
        r@.map_values(|l: String| l@) == split_lines(src@),
{
    let cs = chars_of(src);
    let mut lines: Vec<String> = Vec::new();
    let mut cur = String::new();
    let mut i: usize = 0;
    assert(cs@.take(0) =~= Seq::<char>::empty());
    while i < cs.len()
        invariant
            i <= cs@.len(),
            cs@ == src@,
            lines@.map_values(|l: String| l@).push(cur@) == split_lines(cs@.take(i as int)),
        decreases cs@.len() - i,
    {
        let ghost before = lines@.map_values(|l: String| l@);
        let ghost cur0 = cur@;
        assert(cs@.take(i + 1).drop_last() =~= cs@.take(i as int));
        let c = cs[i];
        if c == '\n' {
            let mut done = String::new();
            core::mem::swap(&mut done, &mut cur);
            lines.push(done);
            assert(lines@.map_values(|l: String| l@) =~= before.push(cur0));
        } else {
            push_char(&mut cur, c);
            assert(before.push(cur0).update(before.len() as int, cur0.push(c)) =~= before.push(cur@));
        }
        i = i + 1;
    }
    assert(cs@.take(i as int) =~= cs@);
    let ghost before = lines@.map_values(|l: String| l@);
    lines.push(cur);
    assert(lines@.map_values(|l: String| l@) =~= before.push(cur@));
    lines
}

impl RutoxError {
    pub fn location(&self) -> (r: SrcLocation)
        ensures
            r == diag_location(self@),
        decreases self,
    {
        match self {
            RutoxError::Syntax(_, l) => *l,
            RutoxError::Runtime(_, l) => *l,
            RutoxError::Programmer(_, l) => *l,
            RutoxError::Multiple(errors) => {
                proof {
                    lemma_diags_of(errors@);
                }
                if errors.len() > 0 {
                    errors[0].location()
                } else {
                    SrcLocation { line: 1, col: 0 }
                }
            },
        }
    }

    /// Appends the summary of this diagnostic.
    pub fn push_summary(&self, s: &mut String)
        ensures
            final(s)@ == old(s)@ + summary_text(self@),
        decreases self,
    {
        let ghost s0 = s@;
        match self {
            RutoxError::Syntax(m, _) => {
                push_str(s, "SyntaxError: ");
                push_str(s, m.as_str());
                push_str(s, ".");
            },
            RutoxError::Runtime(m, _) => {
                push_str(s, "RuntimeError: ");
                push_str(s, m.as_str());
                push_str(s, ".");
            },
            RutoxError::Programmer(m, _) => {
                push_str(s, "ProgrammerError: ");
                push_str(s, m.as_str());
                push_str(s, ".");
                push_str(s, "\nThis is a bug in rutox.");
            },
            RutoxError::Multiple(errors) => {
                let ghost ds = diags_of(errors@);
                proof {
                    lemma_diags_of(errors@);
                }
                let mut i: usize = 0;
                assert(ds.take(0) =~= Seq::<Diag>::empty());
                while i < errors.len()
                    invariant
                        i <= errors@.len() == ds.len(),
                        *self == RutoxError::Multiple(*errors),
                        ds == diags_of(errors@),
                        forall|j: int| 0 <= j < errors@.len() ==> #[trigger] ds[j] == errors@[j]@,
                        s@ == s0 + summaries_text(ds.take(i as int)),
                    decreases errors@.len() - i,
                {
                    assert(decreases_to!(*self => errors@[i as int])) by {
                        assert(*self is Multiple);
                        assert(self->Multiple_0 == *errors);
                        assert(decreases_to!(*self => self->Multiple_0));
                        assert(decreases_to!(*errors => errors@));
                        assert(decreases_to!(errors@ => errors@[i as int]));
                    }
                    errors[i].push_summary(s);
                    push_str(s, "\n");
                    assert(ds.take(i + 1).drop_last() =~= ds.take(i as int));
                    assert(s@ =~= s0 + summaries_text(ds.take(i + 1)));
                    i = i + 1;
                }
                assert(ds.take(i as int) =~= ds);
            },
        }
        assert(s@ =~= s0 + summary_text(self@));
    }

    /// The lines around this diagnostic's location in `source_file_content`,
    /// numbered, with a caret under the column.
    pub fn code_excerpt(&self, source_file_content: &str) -> (r: String)
        ensures
            r@ == excerpt_text(source_file_content@, diag_location(self@)),
    {
        let loc = self.location();
        let lines = lines_of(source_file_content);
        let ghost ls = lines@.map_values(|l: String| l@);
        let n = lines.len();
        let k = loc.line;
        let last = if k < n {
            k + 1
        } else if 1 <= k && k <= n {
            k
        } else if 2 <= k && k - 1 <= n {
            k - 1
        } else {
            k
        };
        let w = digit_count(last);
        let mut s = String::new();
        push_empty_column(&mut s, w);
        push_str(&mut s, "\n");
        let ghost head = s@;
        if 2 <= k && k - 1 <= n {
            push_row(&mut s, &lines, k - 1, k, loc.col, w);
        }
        let ghost first = s@;
        if 1 <= k && k <= n {
            push_row(&mut s, &lines, k, k, loc.col, w);
        }
        let ghost second = s@;
        if k < n {
            push_row(&mut s, &lines, k + 1, k, loc.col, w);
        }
        let ghost third = s@;
        push_empty_column(&mut s, w);
        proof {
            let ki = k as int;
            let c = loc.col as int;
            let wi = w as int;
            assert(first == head + excerpt_row(ls, ki - 1, ki, c, wi));
            assert(second == first + excerpt_row(ls, ki, ki, c, wi));
            assert(third == second + excerpt_row(ls, ki + 1, ki, c, wi));
        }
        assert(s@ =~= excerpt_text(source_file_content@, diag_location(self@)));
        s
    }

    /// Where this diagnostic points in a file, then the excerpt around it.
    pub fn details(&self, source_file_path: &str, source_file_content: &str) -> (r: String)
        ensures
            r@ == details_text(self@, source_file_path@, source_file_content@),
    {
        let mut s = String::from_str("  --> ");
        push_str(&mut s, source_file_path);
        push_char(&mut s, ':');
        self.location().push_text(&mut s);
        push_str(&mut s, "\n");
        let excerpt = self.code_excerpt(source_file_content);
        push_str(&mut s, excerpt.as_str());
        proof {
            reveal_strlit(":");
        }
        assert(s@ =~= details_text(self@, source_file_path@, source_file_content@));
        s
    }

    /// The one-line summary of this diagnostic: its kind and message.
    pub fn render(&self) -> (r: String)
        ensures
            r@ == summary_text(self@),
    {
        let mut s = String::new();
        self.push_summary(&mut s);
        assert(s@ =~= summary_text(self@));
        s
    }
}

} // verus!
