use vstd::prelude::*;
use crate::location::SrcLocation;
use crate::location::location_text;
use crate::number::{render_number, Number};
use crate::text::push_str;

verus! {

/// The kinds of tokens. Identifiers, strings and numbers carry their value
/// in the token itself.
#[derive(Clone, Copy, Debug, PartialEq, Eq, Structural)]
pub enum TokenKind {
    LParen,
    RParen,
    LBrace,
    RBrace,
    Comma,
    Dot,
    Minus,
    Plus,
    Semicolon,
    Slash,
    Star,
    Bang,
    BangEqual,
    Equal,
    EqualEqual,
    Greater,
    GreaterEqual,
    Less,
    LessEqual,
    Identifier,
    String,
    Number,
    And,
    Class,
    Else,
    False,
    Fun,
    For,
    If,
    Nil,
    Or,
    Print,
    Return,
    Super,
    This,
    True,
    Var,
    While,
    Eof,
}

/// A token: its kind, its source text, its value and where it starts.
/// `text` is an identifier's name or a string literal's contents, and empty
/// for other tokens; `number` is a number literal's value, and zero for
/// other tokens.
#[derive(Clone, Debug)]
pub struct Token {
    pub kind: TokenKind,
    pub lexeme: String,
    pub text: String,
    pub number: Number,
    pub location: SrcLocation,
}

/// What a token shows of itself in a diagnostic.
pub open spec fn token_text(t: Token) -> Seq<char> {
    if t.kind == TokenKind::Eof {
        "EOF"@
    } else {
        t.lexeme@
    }
}

/// The name of a token kind: keywords as written, others by their kind.
pub open spec fn kind_name(k: TokenKind) -> Seq<char> {
    match k {
        TokenKind::LParen => "LParen"@,
        TokenKind::RParen => "RParen"@,
        TokenKind::LBrace => "LBrace"@,
        TokenKind::RBrace => "RBrace"@,
        TokenKind::Comma => "Comma"@,
        TokenKind::Dot => "Dot"@,
        TokenKind::Minus => "Minus"@,
        TokenKind::Plus => "Plus"@,
        TokenKind::Semicolon => "Semicolon"@,
        TokenKind::Slash => "Slash"@,
        TokenKind::Star => "Star"@,
        TokenKind::Bang => "Bang"@,
        TokenKind::BangEqual => "BangEqual"@,
        TokenKind::Equal => "Equal"@,
        TokenKind::EqualEqual => "EqualEqual"@,
        TokenKind::Greater => "Greater"@,
        TokenKind::GreaterEqual => "GreaterEqual"@,
        TokenKind::Less => "Less"@,
        TokenKind::LessEqual => "LessEqual"@,
        TokenKind::Identifier => "Identifier"@,
        TokenKind::String => "String"@,
        TokenKind::Number => "Number"@,
        TokenKind::And => "and"@,
        TokenKind::Class => "class"@,
        TokenKind::Else => "else"@,
        TokenKind::False => "false"@,
        TokenKind::Fun => "fun"@,
        TokenKind::For => "for"@,
        TokenKind::If => "if"@,
        TokenKind::Nil => "nil"@,
        TokenKind::Or => "or"@,
        TokenKind::Print => "print"@,
        TokenKind::Return => "return"@,
        TokenKind::Super => "super"@,
        TokenKind::This => "this"@,
        TokenKind::True => "true"@,
        TokenKind::Var => "var"@,
        TokenKind::While => "while"@,
        TokenKind::Eof => "Eof"@,
    }
}

/// A token kind, with the value of a literal or identifier.
pub open spec fn token_kind_text(t: Token) -> Seq<char> {
    if t.kind == TokenKind::Number {
        "Number("@ + render_number(t.number@) + ")"@
    } else if t.kind == TokenKind::String {
        "String("@ + t.text@ + ")"@
    } else if t.kind == TokenKind::Identifier {
        "Identifier("@ + t.text@ + ")"@
    } else {
        kind_name(t.kind)
    }
}

impl TokenKind {
    pub fn name(&self) -> (r: &'static str)
        ensures
            r@ == kind_name(*self),
    {
        match self {
            TokenKind::LParen => "LParen",
            TokenKind::RParen => "RParen",
            TokenKind::LBrace => "LBrace",
            TokenKind::RBrace => "RBrace",
            TokenKind::Comma => "Comma",
            TokenKind::Dot => "Dot",
            TokenKind::Minus => "Minus",
            TokenKind::Plus => "Plus",
            TokenKind::Semicolon => "Semicolon",
            TokenKind::Slash => "Slash",
            TokenKind::Star => "Star",
            TokenKind::Bang => "Bang",
            TokenKind::BangEqual => "BangEqual",
            TokenKind::Equal => "Equal",
            TokenKind::EqualEqual => "EqualEqual",
            TokenKind::Greater => "Greater",
            TokenKind::GreaterEqual => "GreaterEqual",
            TokenKind::Less => "Less",
            TokenKind::LessEqual => "LessEqual",
            TokenKind::Identifier => "Identifier",
            TokenKind::String => "String",
            TokenKind::Number => "Number",
            TokenKind::And => "and",
            TokenKind::Class => "class",
            TokenKind::Else => "else",
            TokenKind::False => "false",
            TokenKind::Fun => "fun",
            TokenKind::For => "for",
            TokenKind::If => "if",
            TokenKind::Nil => "nil",
            TokenKind::Or => "or",
            TokenKind::Print => "print",
            TokenKind::Return => "return",
            TokenKind::Super => "super",
            TokenKind::This => "this",
            TokenKind::True => "true",
            TokenKind::Var => "var",
            TokenKind::While => "while",
            TokenKind::Eof => "Eof",
        }
    }
}

impl Token {
    /// A copy of the token.
    pub fn copy(&self) -> (r: Token)
        ensures
            r == *self,
    {
        Token {
            kind: self.kind,
            lexeme: self.lexeme.clone(),
            text: self.text.clone(),
            number: self.number,
            location: self.location,
        }
    }

    /// The token's kind, value and location, as `<kind at line:col>`.
    pub fn describe(&self) -> (r: String)
        ensures
            r@ == "<"@ + token_kind_text(*self) + " at "@ + location_text(self.location) + ">"@,
    {
        let mut s = String::from_str("<");
        if self.kind == TokenKind::Number {
            push_str(&mut s, "Number(");
            let n = self.number.render();
            push_str(&mut s, n.as_str());
            push_str(&mut s, ")");
        } else if self.kind == TokenKind::String {
            push_str(&mut s, "String(");
            push_str(&mut s, self.text.as_str());
            push_str(&mut s, ")");
        } else if self.kind == TokenKind::Identifier {
            push_str(&mut s, "Identifier(");
            push_str(&mut s, self.text.as_str());
            push_str(&mut s, ")");
        } else {
            push_str(&mut s, self.kind.name());
        }
        push_str(&mut s, " at ");
        self.location.push_text(&mut s);
        push_str(&mut s, ">");
        assert(s@ =~= "<"@ + token_kind_text(*self) + " at "@ + location_text(self.location) + ">"@);
        s
    }

    /// What the token shows of itself in a diagnostic.
    pub fn render(&self) -> (r: String)
        ensures
            r@ == token_text(*self),
    {
        if self.kind == TokenKind::Eof {
            String::from_str("EOF")
        } else {
            self.lexeme.clone()
        }
    }
}

} // verus!
