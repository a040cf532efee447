use vstd::prelude::*;
use crate::error::{Diag, RutoxError};
use crate::location::SrcLocation;
use crate::number::{fits, literal_scaled, Number};
use crate::text::{is_digit, push_char, push_str};
use crate::token::{Token, TokenKind};
use vstd::std_specs::iter::IteratorSpec;

verus! {

/// What a token is, with its texts as character sequences.
pub struct TokenView {
    pub kind: TokenKind,
    pub lexeme: Seq<char>,
    pub text: Seq<char>,
    pub number: int,
    pub loc: SrcLocation,
}

impl View for Token {
    type V = TokenView;

    open spec fn view(&self) -> TokenView {
        TokenView {
            kind: self.kind,
            lexeme: self.lexeme@,
            text: self.text@,
            number: self.number@,
            loc: self.location,
        }
    }
}

pub open spec fn is_alpha(c: char) -> bool {
    ('a' <= c && c <= 'z') || ('A' <= c && c <= 'Z') || c == '_'
}

pub open spec fn is_alnum(c: char) -> bool {
    is_alpha(c) || is_digit(c)
}

/// Whether `src[i]` exists and is `c`.
pub open spec fn char_is(src: Seq<char>, i: int, c: char) -> bool {
    0 <= i < src.len() && src[i] == c
}

/// A counter moved on by one, staying at its largest value.
pub open spec fn bump(n: usize) -> usize {
    if n < usize::MAX {
        (n + 1) as usize
    } else {
        n
    }
}

/// Where the location moves to after the character `c`.
pub open spec fn step_loc(l: SrcLocation, c: char) -> SrcLocation {
    if c == '\n' {
        SrcLocation { line: bump(l.line), col: 0 }
    } else {
        SrcLocation { line: l.line, col: bump(l.col) }
    }
}

/// The location after reading `src[from..to]` from location `l`.
pub open spec fn loc_after(src: Seq<char>, from: int, to: int, l: SrcLocation) -> SrcLocation
    decreases to - from,
{
    if to <= from {
        l
    } else {
        step_loc(loc_after(src, from, to - 1, l), src[to - 1])
    }
}

/// The classes of characters that the lexer reads in runs.
#[derive(Clone, Copy, PartialEq, Eq, Structural)]
pub enum CharClass {
    Digit,
    Word,
    NotNewline,
    NotQuote,
}

pub open spec fn in_class(k: CharClass, c: char) -> bool {
    match k {
        CharClass::Digit => is_digit(c),
        CharClass::Word => is_alnum(c),
        CharClass::NotNewline => c != '\n',
        CharClass::NotQuote => c != '"',
    }
}

/// The end of the run of characters of class `k` that starts at `i`.
pub open spec fn run_end(src: Seq<char>, i: int, k: CharClass) -> int
    decreases src.len() - i,
{
    if 0 <= i < src.len() && in_class(k, src[i]) {
        run_end(src, i + 1, k)
    } else {
        i
    }
}

proof fn lemma_run_end(src: Seq<char>, i: int, k: CharClass)
    requires
        0 <= i <= src.len(),
    ensures
        i <= run_end(src, i, k) <= src.len(),
        forall|j: int| i <= j < run_end(src, i, k) ==> in_class(k, #[trigger] src[j]),
        run_end(src, i, k) < src.len() ==> !in_class(k, src[run_end(src, i, k)]),
    decreases src.len() - i,
{
    if i < src.len() && in_class(k, src[i]) {
        lemma_run_end(src, i + 1, k);
    }
}

pub open spec fn single_kind(c: char) -> Option<TokenKind> {
    if c == '(' {
        Some(TokenKind::LParen)
    } else if c == ')' {
        Some(TokenKind::RParen)
    } else if c == '{' {
        Some(TokenKind::LBrace)
    } else if c == '}' {
        Some(TokenKind::RBrace)
    } else if c == ',' {
        Some(TokenKind::Comma)
    } else if c == '.' {
        Some(TokenKind::Dot)
    } else if c == '-' {
        Some(TokenKind::Minus)
    } else if c == '+' {
        Some(TokenKind::Plus)
    } else if c == ';' {
        Some(TokenKind::Semicolon)
    } else if c == '*' {
        Some(TokenKind::Star)
    } else {
        None
    }
}

/// The kind of an operator that may be followed by `=`.
pub open spec fn operator_kind(c: char, with_equal: bool) -> Option<TokenKind> {
    if c == '!' {
        Some(if with_equal { TokenKind::BangEqual } else { TokenKind::Bang })
    } else if c == '=' {
        Some(if with_equal { TokenKind::EqualEqual } else { TokenKind::Equal })
    } else if c == '<' {
        Some(if with_equal { TokenKind::LessEqual } else { TokenKind::Less })
    } else if c == '>' {
        Some(if with_equal { TokenKind::GreaterEqual } else { TokenKind::Greater })
    } else {
        None
    }
}

pub open spec fn keyword_kind(w: Seq<char>) -> Option<TokenKind> {
    if w == "and"@ {
        Some(TokenKind::And)
    } else if w == "class"@ {
        Some(TokenKind::Class)
    } else if w == "else"@ {
        Some(TokenKind::Else)
    } else if w == "false"@ {
        Some(TokenKind::False)
    } else if w == "for"@ {
        Some(TokenKind::For)
    } else if w == "fun"@ {
        Some(TokenKind::Fun)
    } else if w == "if"@ {
        Some(TokenKind::If)
    } else if w == "nil"@ {
        Some(TokenKind::Nil)
    } else if w == "or"@ {
        Some(TokenKind::Or)
    } else if w == "print"@ {
        Some(TokenKind::Print)
    } else if w == "return"@ {
        Some(TokenKind::Return)
    } else if w == "super"@ {
        Some(TokenKind::Super)
    } else if w == "this"@ {
        Some(TokenKind::This)
    } else if w == "true"@ {
        Some(TokenKind::True)
    } else if w == "var"@ {
        Some(TokenKind::Var)
    } else if w == "while"@ {
        Some(TokenKind::While)
    } else {
        None
    }
}

/// A token that spans `src[start..end]` and carries the given text and number.
pub open spec fn token_at(
    src: Seq<char>,
    start: int,
    end: int,
    kind: TokenKind,
    text: Seq<char>,
    number: int,
    l: SrcLocation,
) -> TokenView {
    TokenView {
        kind,
        lexeme: src.subrange(start, end),
        text,
        number,
        loc: loc_after(src, start, end, l),
    }
}

/// The end of a number literal that starts at `start`: its digits, then a
/// point and more digits when a digit follows the point.
pub open spec fn number_end(src: Seq<char>, start: int) -> (int, int) {
    let e1 = run_end(src, start, CharClass::Digit);
    if char_is(src, e1, '.') && e1 + 1 < src.len() && is_digit(src[e1 + 1]) {
        (e1, run_end(src, e1 + 1, CharClass::Digit))
    } else {
        (e1, e1)
    }
}

/// One step of the lexer at `src[start]`, with the location `l` before it:
/// the token it makes, if any, and where the next step starts; or the error.
pub open spec fn lex_step(src: Seq<char>, start: int, l: SrcLocation) -> Result<
    (Option<TokenView>, int),
    Diag,
> {
    let c = src[start];
    if single_kind(c) is Some {
        Ok((Some(token_at(src, start, start + 1, single_kind(c)->0, Seq::empty(), 0, l)), start + 1))
    } else if operator_kind(c, false) is Some {
        let with_equal = char_is(src, start + 1, '=');
        let end = if with_equal {
            start + 2
        } else {
            start + 1
        };
        Ok(
            (
                Some(token_at(src, start, end, operator_kind(c, with_equal)->0, Seq::empty(), 0, l)),
                end,
            ),
        )
    } else if c == '/' {
        if char_is(src, start + 1, '/') {
            Ok((None, run_end(src, start + 2, CharClass::NotNewline)))
        } else {
            Ok((Some(token_at(src, start, start + 1, TokenKind::Slash, Seq::empty(), 0, l)), start + 1))
        }
    } else if c == '"' {
        let close = run_end(src, start + 1, CharClass::NotQuote);
        if close >= src.len() {
            Err(Diag::Syntax("Unterminated string"@, loc_after(src, start, src.len() as int, l)))
        } else {
            Ok(
                (
                    Some(
                        token_at(
                            src,
                            start,
                            close + 1,
                            TokenKind::String,
                            src.subrange(start + 1, close),
                            0,
                            l,
                        ),
                    ),
                    close + 1,
                ),
            )
        }
    } else if c == ' ' || c == '\t' || c == '\r' || c == '\n' {
        Ok((None, start + 1))
    } else if is_digit(c) {
        let (dot, end) = number_end(src, start);
        let frac = if end > dot {
            src.subrange(dot + 1, end)
        } else {
            Seq::empty()
        };
        let v = literal_scaled(src.subrange(start, dot), frac);
        if fits(v) {
            Ok((Some(token_at(src, start, end, TokenKind::Number, Seq::empty(), v, l)), end))
        } else {
            Err(Diag::Syntax("Number literal out of range"@, loc_after(src, start, end, l)))
        }
    } else if is_alpha(c) {
        let end = run_end(src, start, CharClass::Word);
        let word = src.subrange(start, end);
        match keyword_kind(word) {
            Some(k) => Ok((Some(token_at(src, start, end, k, Seq::empty(), 0, l)), end)),
            None => Ok((Some(token_at(src, start, end, TokenKind::Identifier, word, 0, l)), end)),
        }
    } else {
        Err(
            Diag::Syntax(
                "Unexpected character: `"@ + seq![c] + "`"@,
                loc_after(src, start, start + 1, l),
            ),
        )
    }
}

pub open spec fn eof_token(l: SrcLocation) -> TokenView {
    TokenView { kind: TokenKind::Eof, lexeme: Seq::empty(), text: Seq::empty(), number: 0, loc: l }
}

/// The tokens of `src[pos..]`, ending with `Eof`, or the first error.
pub open spec fn scan_from(src: Seq<char>, pos: int, l: SrcLocation) -> Result<Seq<TokenView>, Diag>
    decreases src.len() - pos,
{
    if pos >= src.len() {
        Ok(seq![eof_token(l)])
    } else {
        match lex_step(src, pos, l) {
            Ok((tok, next)) => {
                // never taken: every step reads at least one character
                if next <= pos || next > src.len() {
                    Ok(Seq::empty())
                } else {
                    match scan_from(src, next, loc_after(src, pos, next, l)) {
                        Ok(rest) => match tok {
                            Some(t) => Ok(seq![t] + rest),
                            None => Ok(rest),
                        },
                        Err(d) => Err(d),
                    }
                }
            },
            Err(d) => Err(d),
        }
    }
}

/// The tokens of a source text: the first line is 1, and a column counts
/// the characters read on its line.
pub open spec fn scan(src: Seq<char>) -> Result<Seq<TokenView>, Diag> {
    scan_from(src, 0, SrcLocation { line: 1, col: 0 })
}

pub open spec fn views(ts: Seq<Token>) -> Seq<TokenView> {
    ts.map_values(|t: Token| t@)
}

/// The characters of a text, in order.
pub(crate) fn chars_of(s: &str) -> (r: Vec<char>)
    ensures
        r@ == s@,
{
    let mut it = s.chars();
    let mut out: Vec<char> = Vec::new();
    loop
        invariant
            out@ + it.remaining() == s@,
            it.obeys_prophetic_iter_laws(),
            it.decrease() is Some,
        decreases it.decrease()->0,
    {
        let ghost before = it.remaining();
        match it.next() {
            Some(c) => {
                let ghost prev = out@;
                out.push(c);
                assert(prev.push(c) + before.drop_first() =~= prev + before);
            },
            None => {
                assert(out@ + before =~= out@);
                return out;
            },
        }
    }
}

/// The text `cs[from..to]`.
fn string_of(cs: &Vec<char>, from: usize, to: usize) -> (r: String)
    requires
        from <= to <= cs@.len(),
    ensures
        r@ == cs@.subrange(from as int, to as int),
{
    let mut s = String::new();
    let mut i = from;
    while i < to
        invariant
            from <= i <= to <= cs@.len(),
            s@ == cs@.subrange(from as int, i as int),
        decreases to - i,
    {
        push_char(&mut s, cs[i]);
        i = i + 1;
        assert(s@ =~= cs@.subrange(from as int, i as int));
    }
    s
}

/// Whether `cs[from..to]` is the text `w`.
fn word_is(cs: &Vec<char>, from: usize, to: usize, w: &str) -> (r: bool)
    requires
        from <= to <= cs@.len(),
    ensures
        r == (cs@.subrange(from as int, to as int) == w@),
{
    let n = w.unicode_len();
    if to - from != n {
        return false;
    }
    let mut i: usize = 0;
    while i < n
        invariant
            i <= n == w@.len() == to - from,
            from <= to <= cs@.len(),
            forall|j: int| 0 <= j < i ==> cs@[from + j] == w@[j],
        decreases n - i,
    {
        if cs[from + i] != w.get_char(i) {
            assert(cs@.subrange(from as int, to as int)[i as int] != w@[i as int]);
            return false;
        }
        i = i + 1;
    }
    assert(cs@.subrange(from as int, to as int) =~= w@);
    true
}

fn keyword_to_token_kind(cs: &Vec<char>, from: usize, to: usize) -> (r: Option<TokenKind>)
    requires
        from <= to <= cs@.len(),
    ensures
        r == keyword_kind(cs@.subrange(from as int, to as int)),
{
    if word_is(cs, from, to, "and") {
        Some(TokenKind::And)
    } else if word_is(cs, from, to, "class") {
        Some(TokenKind::Class)
    } else if word_is(cs, from, to, "else") {
        Some(TokenKind::Else)
    } else if word_is(cs, from, to, "false") {
        Some(TokenKind::False)
    } else if word_is(cs, from, to, "for") {
        Some(TokenKind::For)
    } else if word_is(cs, from, to, "fun") {
        Some(TokenKind::Fun)
    } else if word_is(cs, from, to, "if") {
        Some(TokenKind::If)
    } else if word_is(cs, from, to, "nil") {
        Some(TokenKind::Nil)
    } else if word_is(cs, from, to, "or") {
        Some(TokenKind::Or)
    } else if word_is(cs, from, to, "print") {
        Some(TokenKind::Print)
    } else if word_is(cs, from, to, "return") {
        Some(TokenKind::Return)
    } else if word_is(cs, from, to, "super") {
        Some(TokenKind::Super)
    } else if word_is(cs, from, to, "this") {
        Some(TokenKind::This)
    } else if word_is(cs, from, to, "true") {
        Some(TokenKind::True)
    } else if word_is(cs, from, to, "var") {
        Some(TokenKind::Var)
    } else if word_is(cs, from, to, "while") {
        Some(TokenKind::While)
    } else {
        None
    }
}

/// Turns source text into tokens.
pub struct Scanner {
    source: Vec<char>,
    tokens: Vec<Token>,
    start: usize,
    current: usize,
    current_line: usize,
    current_column: usize,
}

impl Scanner {
    /// The characters being scanned.
    pub closed spec fn chars(&self) -> Seq<char> {
        self.source@
    }

    pub fn new(source: String) -> (r: Scanner)
        ensures
            r.chars() == source@,
    {
        Scanner {
            source: chars_of(source.as_str()),
            tokens: Vec::new(),
            start: 0,
            current: 0,
            current_line: 1,
            current_column: 0,
        }
    }

    /// The location reached so far.
    closed spec fn here(&self) -> SrcLocation {
        SrcLocation { line: self.current_line, col: self.current_column }
    }

    /// Scanning state that the steps keep.
    closed spec fn sound(&self) -> bool {
        &&& self.start <= self.current <= self.source@.len() <= usize::MAX
    }

    /// The tokens of the whole source, ending with `Eof`, or the first error.
    pub fn scan_tokens(&mut self) -> (r: Result<Vec<Token>, RutoxError>)
        ensures
            final(self).chars() == old(self).chars(),
            match scan(old(self).chars()) {
                Ok(ts) => r is Ok && views(r->Ok_0@) == ts,
                Err(d) => r is Err && r->Err_0@ == d,
            },
    {
        self.tokens = Vec::new();
        self.start = 0;
        self.current = 0;
        self.current_line = 1;
        self.current_column = 0;
        let count = self.source.len();
        assert(count == self.source@.len());
        let ghost src = self.source@;
        let ghost whole = scan(src);
        assert(views(self.tokens@) =~= Seq::<TokenView>::empty());
        while self.current < self.source.len()
            invariant
                self.source@ == src,
                src == old(self).chars(),
                self.sound(),
                whole == scan(src),
                whole == match scan_from(src, self.current as int, self.here()) {
                    Ok(rest) => Ok(views(self.tokens@) + rest),
                    Err(d) => Err(d),
                },
            decreases src.len() - self.current,
        {
            self.start = self.current;
            let ghost pos = self.current as int;
            let ghost l = self.here();
            let ghost before = views(self.tokens@);
            let step = self.scan_token();
            match step {
                Ok(()) => {
                    proof {
                        let (tok, next) = lex_step(src, pos, l)->Ok_0;
                        match tok {
                            Some(t) => {
                                assert(views(self.tokens@) =~= before.push(t));
                                match scan_from(src, next, self.here()) {
                                    Ok(rest) => {
                                        assert(before + (seq![t] + rest) =~= before.push(t) + rest);
                                    },
                                    Err(_) => {},
                                }
                            },
                            None => {},
                        }
                    }
                },
                Err(e) => {
                    return Err(e);
                },
            }
        }
        let eof = Token {
            kind: TokenKind::Eof,
            lexeme: String::new(),
            text: String::new(),
            number: Number::zero(),
            location: SrcLocation { line: self.current_line, col: self.current_column },
        };
        let ghost before = views(self.tokens@);
        self.tokens.push(eof);
        assert(views(self.tokens@) =~= before + seq![eof_token(self.here())]);
        let mut out = Vec::new();
        core::mem::swap(&mut out, &mut self.tokens);
        Ok(out)
    }

    /// Reads the next character and moves the location past it.
    fn advance(&mut self) -> (c: char)
        requires
            old(self).sound(),
            old(self).current < old(self).source@.len(),
        ensures
            final(self).sound(),
            c == old(self).source@[old(self).current as int],
            final(self).current == old(self).current + 1,
            final(self).here() == step_loc(old(self).here(), c),
            final(self).source == old(self).source,
            final(self).tokens == old(self).tokens,
            final(self).start == old(self).start,
    {
        let c = self.source[self.current];
        self.current = self.current + 1;
        if c == '\n' {
            if self.current_line < usize::MAX {
                self.current_line = self.current_line + 1;
            }
            self.current_column = 0;
        } else if self.current_column < usize::MAX {
            self.current_column = self.current_column + 1;
        }
        c
    }

    /// Reads the run of characters of class `k` that starts here.
    fn consume_while(&mut self, k: CharClass, Ghost(anchor): Ghost<int>, Ghost(l): Ghost<SrcLocation>)
        requires
            old(self).sound(),
            anchor <= old(self).current,
            old(self).here() == loc_after(old(self).source@, anchor, old(self).current as int, l),
        ensures
            final(self).sound(),
            final(self).current == run_end(old(self).source@, old(self).current as int, k),
            final(self).here() == loc_after(
                old(self).source@,
                anchor,
                final(self).current as int,
                l,
            ),
            final(self).source == old(self).source,
            final(self).tokens == old(self).tokens,
            final(self).start == old(self).start,
    {
        let ghost src = self.source@;
        let ghost p0 = self.current as int;
        while self.current < self.source.len() && class_holds(k, self.source[self.current])
            invariant
                self.sound(),
                self.source@ == src,
                self.source == old(self).source,
                self.tokens == old(self).tokens,
                self.start == old(self).start,
                p0 <= self.current,
                anchor <= self.current,
                run_end(src, p0, k) == run_end(src, self.current as int, k),
                self.here() == loc_after(src, anchor, self.current as int, l),
            decreases src.len() - self.current,
        {
            self.advance();
        }
    }

    fn peek_is(&self, offset: usize, c: char) -> (r: bool)
        requires
            self.sound(),
            offset <= 2,
        ensures
            r == char_is(self.source@, self.current + offset, c),
    {
        offset < self.source.len() - self.current && self.source[self.current + offset] == c
    }

    fn add_token(&mut self, kind: TokenKind, text: String, number: Number)
        requires
            old(self).sound(),
        ensures
            views(final(self).tokens@) == views(old(self).tokens@).push(
                TokenView {
                    kind,
                    lexeme: old(self).source@.subrange(
                        old(self).start as int,
                        old(self).current as int,
                    ),
                    text: text@,
                    number: number@,
                    loc: old(self).here(),
                },
            ),
            final(self).source == old(self).source,
            final(self).start == old(self).start,
            final(self).current == old(self).current,
            final(self).current_line == old(self).current_line,
            final(self).current_column == old(self).current_column,
    {
        let lexeme = string_of(&self.source, self.start, self.current);
        let location = SrcLocation { line: self.current_line, col: self.current_column };
        let ghost before = views(self.tokens@);
        self.tokens.push(Token { kind, lexeme, text, number, location });
        assert(views(self.tokens@) =~= before.push(self.tokens@.last()@));
    }

    /// Performs one lexer step at `start`.
    fn scan_token(&mut self) -> (r: Result<(), RutoxError>)
        requires
            old(self).sound(),
            old(self).start == old(self).current,
            old(self).current < old(self).source@.len(),
        ensures
            final(self).source == old(self).source,
            match lex_step(old(self).source@, old(self).current as int, old(self).here()) {
                Ok((tok, next)) => {
                    &&& r is Ok
                    &&& final(self).sound()
                    &&& next > old(self).current
                    &&& next <= old(self).source@.len()
                    &&& final(self).current == next
                    &&& final(self).here() == loc_after(
                        old(self).source@,
                        old(self).current as int,
                        next,
                        old(self).here(),
                    )
                    &&& views(final(self).tokens@) == match tok {
                        Some(t) => views(old(self).tokens@).push(t),
                        None => views(old(self).tokens@),
                    }
                },
                Err(d) => r is Err && r->Err_0@ == d,
            },
    {
        let ghost src = self.source@;
        let ghost pos = self.current as int;
        let ghost l = self.here();
        let zero = Number::zero();
        let c = self.advance();
        assert(loc_after(src, pos, pos, l) == l);
        assert(self.here() == loc_after(src, pos, pos + 1, l));
        let single = if c == '(' {
            Some(TokenKind::LParen)
        } else if c == ')' {
            Some(TokenKind::RParen)
        } else if c == '{' {
            Some(TokenKind::LBrace)
        } else if c == '}' {
            Some(TokenKind::RBrace)
        } else if c == ',' {
            Some(TokenKind::Comma)
        } else if c == '.' {
            Some(TokenKind::Dot)
        } else if c == '-' {
            Some(TokenKind::Minus)
        } else if c == '+' {
            Some(TokenKind::Plus)
        } else if c == ';' {
            Some(TokenKind::Semicolon)
        } else if c == '*' {
            Some(TokenKind::Star)
        } else {
            None
        };
        if let Some(kind) = single {
            self.add_token(kind, String::new(), zero);
            return Ok(());
        }
        if c == '!' || c == '=' || c == '<' || c == '>' {
            let with_equal = self.peek_is(0, '=');
            if with_equal {
                self.advance();
            }
            let kind = if c == '!' {
                if with_equal {
                    TokenKind::BangEqual
                } else {
                    TokenKind::Bang
                }
            } else if c == '=' {
                if with_equal {
                    TokenKind::EqualEqual
                } else {
                    TokenKind::Equal
                }
            } else if c == '<' {
                if with_equal {
                    TokenKind::LessEqual
                } else {
                    TokenKind::Less
                }
            } else {
                if with_equal {
                    TokenKind::GreaterEqual
                } else {
                    TokenKind::Greater
                }
            };
            self.add_token(kind, String::new(), zero);
            return Ok(());
        }
        if c == '/' {
            if self.peek_is(0, '/') {
                self.advance();
                proof {
                    lemma_run_end(src, pos + 2, CharClass::NotNewline);
                }
                self.consume_while(CharClass::NotNewline, Ghost(pos), Ghost(l));
                return Ok(());
            }
            self.add_token(TokenKind::Slash, String::new(), zero);
            return Ok(());
        }
        if c == '"' {
            proof {
                lemma_run_end(src, pos + 1, CharClass::NotQuote);
            }
            self.consume_while(CharClass::NotQuote, Ghost(pos), Ghost(l));
            if self.current >= self.source.len() {
                return Err(
                    RutoxError::Syntax(
                        String::from_str("Unterminated string"),
                        SrcLocation { line: self.current_line, col: self.current_column },
                    ),
                );
            }
            self.advance();
            let text = string_of(&self.source, self.start + 1, self.current - 1);
            self.add_token(TokenKind::String, text, zero);
            return Ok(());
        }
        if c == ' ' || c == '\t' || c == '\r' || c == '\n' {
            return Ok(());
        }
        if '0' <= c && c <= '9' {
            proof {
                lemma_run_end(src, pos + 1, CharClass::Digit);
            }
            self.consume_while(CharClass::Digit, Ghost(pos), Ghost(l));
            let dot = self.current;
            let mut frac_start = dot;
            if self.peek_is(0, '.') && 1 < self.source.len() - self.current && class_holds(
                CharClass::Digit,
                self.source[self.current + 1],
            ) {
                self.advance();
                assert(self.here() == loc_after(src, pos, self.current as int, l));
                frac_start = self.current;
                proof {
                    lemma_run_end(src, frac_start as int, CharClass::Digit);
                }
                self.consume_while(CharClass::Digit, Ghost(pos), Ghost(l));
            }
            let end = self.current;
            assert(src.subrange(end as int, end as int) =~= Seq::<char>::empty());
            return match Number::from_literal(&self.source, self.start, dot, frac_start, end) {
                Some(n) => {
                    self.add_token(TokenKind::Number, String::new(), n);
                    Ok(())
                },
                None => Err(
                    RutoxError::Syntax(
                        String::from_str("Number literal out of range"),
                        SrcLocation { line: self.current_line, col: self.current_column },
                    ),
                ),
            };
        }
        if ('a' <= c && c <= 'z') || ('A' <= c && c <= 'Z') || c == '_' {
            proof {
                lemma_run_end(src, pos + 1, CharClass::Word);
            }
            self.consume_while(CharClass::Word, Ghost(pos), Ghost(l));
            let kind = keyword_to_token_kind(&self.source, self.start, self.current);
            match kind {
                Some(k) => {
                    self.add_token(k, String::new(), zero);
                },
                None => {
                    let name = string_of(&self.source, self.start, self.current);
                    self.add_token(TokenKind::Identifier, name, zero);
                },
            }
            return Ok(());
        }
        let mut m = String::from_str("Unexpected character: `");
        push_char(&mut m, c);
        push_str(&mut m, "`");
        assert(m@ =~= "Unexpected character: `"@ + seq![c] + "`"@);
        Err(RutoxError::Syntax(m, SrcLocation { line: self.current_line, col: self.current_column }))
    }
}

fn class_holds(k: CharClass, c: char) -> (r: bool)
    ensures
        r == in_class(k, c),
{
    match k {
        CharClass::Digit => '0' <= c && c <= '9',
        CharClass::Word => ('a' <= c && c <= 'z') || ('A' <= c && c <= 'Z') || c == '_' || ('0' <= c
            && c <= '9'),
        CharClass::NotNewline => c != '\n',
        CharClass::NotQuote => c != '"',
    }
}

} // verus!
