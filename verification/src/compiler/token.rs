//! Tokens produced by the lexer.
use vstd::prelude::*;
use crate::data_type::{DataType, spec_type_debug};
use crate::diagnostics::Span;
use crate::text::{debug_str, debug_str_text, push_char, push_signed_decimal, push_str, string_of};

verus! {

/// The kind of a token, with the data it carries.
///
/// A float literal leaves the lexer as `FloatLexeme`, its text as written;
/// `Float` carries the IEEE-754 bit pattern of a float literal once that text
/// has been converted (see `Token::resolve_float`).
#[derive(Debug, Clone)]
pub enum TokenKind {
    EOF,
    EOL,
    Plus,
    Minus,
    Asterisk,
    Slash,
    Equal,
    NotEqual,
    Modulo,
    Less,
    LessEqual,
    Greater,
    GreaterEqual,
    Assign,
    And,
    Or,
    Not,
    If,
    Else,
    Let,
    While,
    Return,
    External,
    Import,
    ParenL,
    ParenR,
    BracketL,
    BracketR,
    BraceL,
    BraceR,
    Comma,
    DotDot,
    Colon,
    DataType(DataType),
    Ident(String),
    StringLiteral(String),
    Int(i32),
    Float(u64),
    FloatLexeme(String),
    Bool(bool),
}

/// A token and the bytes of the source that it was read from.
#[derive(Debug, Clone)]
pub struct Token {
    pub kind: TokenKind,
    pub span: Span,
}

impl Token {
    pub fn new(kind: TokenKind, span: Span) -> (t: Self)
        ensures
            t == (Token { kind, span }),
    {
        Token { kind, span }
    }

    /// A copy of this token.
    pub fn duplicate(&self) -> (t: Self)
        ensures
            t == *self,
    {
        Token { kind: self.kind.duplicate(), span: self.span }
    }

    /// Replaces a float lexeme by the float's bit pattern; other tokens are left as they are.
    pub fn resolve_float(&mut self, bits: u64)
        ensures
            old(self).kind is FloatLexeme ==> final(self).kind == TokenKind::Float(bits),
            !(old(self).kind is FloatLexeme) ==> *final(self) == *old(self),
            final(self).span == old(self).span,
    {
        if let TokenKind::FloatLexeme(_) = &self.kind {
            self.kind = TokenKind::Float(bits);
        }
    }
}

/// A token kind seen as plain data: strings as text.
pub enum TokenKindView {
    EOF,
    EOL,
    Plus,
    Minus,
    Asterisk,
    Slash,
    Equal,
    NotEqual,
    Modulo,
    Less,
    LessEqual,
    Greater,
    GreaterEqual,
    Assign,
    And,
    Or,
    Not,
    If,
    Else,
    Let,
    While,
    Return,
    External,
    Import,
    ParenL,
    ParenR,
    BracketL,
    BracketR,
    BraceL,
    BraceR,
    Comma,
    DotDot,
    Colon,
    DataType(DataType),
    Ident(Seq<char>),
    StringLiteral(Seq<char>),
    Int(i32),
    Float(u64),
    FloatLexeme(Seq<char>),
    Bool(bool),
}

/// A token seen as plain data.
pub struct TokenView {
    pub kind: TokenKindView,
    pub span: Span,
}

impl View for TokenKind {
    type V = TokenKindView;

    open spec fn view(&self) -> TokenKindView {
        match self {
            TokenKind::EOF => TokenKindView::EOF,
            TokenKind::EOL => TokenKindView::EOL,
            TokenKind::Plus => TokenKindView::Plus,
            TokenKind::Minus => TokenKindView::Minus,
            TokenKind::Asterisk => TokenKindView::Asterisk,
            TokenKind::Slash => TokenKindView::Slash,
            TokenKind::Equal => TokenKindView::Equal,
            TokenKind::NotEqual => TokenKindView::NotEqual,
            TokenKind::Modulo => TokenKindView::Modulo,
            TokenKind::Less => TokenKindView::Less,
            TokenKind::LessEqual => TokenKindView::LessEqual,
            TokenKind::Greater => TokenKindView::Greater,
            TokenKind::GreaterEqual => TokenKindView::GreaterEqual,
            TokenKind::Assign => TokenKindView::Assign,
            TokenKind::And => TokenKindView::And,
            TokenKind::Or => TokenKindView::Or,
            TokenKind::Not => TokenKindView::Not,
            TokenKind::If => TokenKindView::If,
            TokenKind::Else => TokenKindView::Else,
            TokenKind::Let => TokenKindView::Let,
            TokenKind::While => TokenKindView::While,
            TokenKind::Return => TokenKindView::Return,
            TokenKind::External => TokenKindView::External,
            TokenKind::Import => TokenKindView::Import,
            TokenKind::ParenL => TokenKindView::ParenL,
            TokenKind::ParenR => TokenKindView::ParenR,
            TokenKind::BracketL => TokenKindView::BracketL,
            TokenKind::BracketR => TokenKindView::BracketR,
            TokenKind::BraceL => TokenKindView::BraceL,
            TokenKind::BraceR => TokenKindView::BraceR,
            TokenKind::Comma => TokenKindView::Comma,
            TokenKind::DotDot => TokenKindView::DotDot,
            TokenKind::Colon => TokenKindView::Colon,
            TokenKind::DataType(t) => TokenKindView::DataType(*t),
            TokenKind::Ident(s) => TokenKindView::Ident(s@),
            TokenKind::StringLiteral(s) => TokenKindView::StringLiteral(s@),
            TokenKind::Int(i) => TokenKindView::Int(*i),
            TokenKind::Float(b) => TokenKindView::Float(*b),
            TokenKind::FloatLexeme(s) => TokenKindView::FloatLexeme(s@),
            TokenKind::Bool(b) => TokenKindView::Bool(*b),
        }
    }
}

impl View for Token {
    type V = TokenView;

    open spec fn view(&self) -> TokenView {
        TokenView { kind: self.kind@, span: self.span }
    }
}

/// How a token kind is described in messages, as its derived `Debug` writes
/// it: the variant name, followed for the variants that carry data by that
/// data in brackets (strings as `Debug` quotes and escapes them). A float
/// whose bit pattern is known is written without its value.
pub open spec fn spec_token_description(k: TokenKind) -> Seq<char> {
    match k {
        TokenKind::EOF => "EOF"@,
        TokenKind::EOL => "EOL"@,
        TokenKind::Plus => "Plus"@,
        TokenKind::Minus => "Minus"@,
        TokenKind::Asterisk => "Asterisk"@,
        TokenKind::Slash => "Slash"@,
        TokenKind::Equal => "Equal"@,
        TokenKind::NotEqual => "NotEqual"@,
        TokenKind::Modulo => "Modulo"@,
        TokenKind::Less => "Less"@,
        TokenKind::LessEqual => "LessEqual"@,
        TokenKind::Greater => "Greater"@,
        TokenKind::GreaterEqual => "GreaterEqual"@,
        TokenKind::Assign => "Assign"@,
        TokenKind::And => "And"@,
        TokenKind::Or => "Or"@,
        TokenKind::Not => "Not"@,
        TokenKind::If => "If"@,
        TokenKind::Else => "Else"@,
        TokenKind::Let => "Let"@,
        TokenKind::While => "While"@,
        TokenKind::Return => "Return"@,
        TokenKind::External => "External"@,
        TokenKind::Import => "Import"@,
        TokenKind::ParenL => "ParenL"@,
        TokenKind::ParenR => "ParenR"@,
        TokenKind::BracketL => "BracketL"@,
        TokenKind::BracketR => "BracketR"@,
        TokenKind::BraceL => "BraceL"@,
        TokenKind::BraceR => "BraceR"@,
        TokenKind::Comma => "Comma"@,
        TokenKind::DotDot => "DotDot"@,
        TokenKind::Colon => "Colon"@,
        TokenKind::DataType(t) => "DataType("@ + spec_type_debug(t) + ")"@,
        TokenKind::Ident(s) => "Ident("@ + debug_str_text(s@) + ")"@,
        TokenKind::StringLiteral(s) => "StringLiteral("@ + debug_str_text(s@) + ")"@,
        TokenKind::Int(i) => "Int("@ + crate::text::signed_decimal(i as int) + ")"@,
        TokenKind::Float(_) => "Float"@,
        TokenKind::FloatLexeme(s) => "Float("@ + s@ + ")"@,
        TokenKind::Bool(b) => if b { "Bool(true)"@ } else { "Bool(false)"@ },
    }
}

impl TokenKind {
    /// A copy of this token kind.
    pub fn duplicate(&self) -> (k: Self)
        ensures
            k == *self,
    {
        match self {
            TokenKind::EOF => TokenKind::EOF,
            TokenKind::EOL => TokenKind::EOL,
            TokenKind::Plus => TokenKind::Plus,
            TokenKind::Minus => TokenKind::Minus,
            TokenKind::Asterisk => TokenKind::Asterisk,
            TokenKind::Slash => TokenKind::Slash,
            TokenKind::Equal => TokenKind::Equal,
            TokenKind::NotEqual => TokenKind::NotEqual,
            TokenKind::Modulo => TokenKind::Modulo,
            TokenKind::Less => TokenKind::Less,
            TokenKind::LessEqual => TokenKind::LessEqual,
            TokenKind::Greater => TokenKind::Greater,
            TokenKind::GreaterEqual => TokenKind::GreaterEqual,
            TokenKind::Assign => TokenKind::Assign,
            TokenKind::And => TokenKind::And,
            TokenKind::Or => TokenKind::Or,
            TokenKind::Not => TokenKind::Not,
            TokenKind::If => TokenKind::If,
            TokenKind::Else => TokenKind::Else,
            TokenKind::Let => TokenKind::Let,
            TokenKind::While => TokenKind::While,
            TokenKind::Return => TokenKind::Return,
            TokenKind::External => TokenKind::External,
            TokenKind::Import => TokenKind::Import,
            TokenKind::ParenL => TokenKind::ParenL,
            TokenKind::ParenR => TokenKind::ParenR,
            TokenKind::BracketL => TokenKind::BracketL,
            TokenKind::BracketR => TokenKind::BracketR,
            TokenKind::BraceL => TokenKind::BraceL,
            TokenKind::BraceR => TokenKind::BraceR,
            TokenKind::Comma => TokenKind::Comma,
            TokenKind::DotDot => TokenKind::DotDot,
            TokenKind::Colon => TokenKind::Colon,
            TokenKind::DataType(t) => TokenKind::DataType(t.duplicate()),
            TokenKind::Ident(s) => TokenKind::Ident(s.clone()),
            TokenKind::StringLiteral(s) => TokenKind::StringLiteral(s.clone()),
            TokenKind::Int(i) => TokenKind::Int(*i),
            TokenKind::Float(b) => TokenKind::Float(*b),
            TokenKind::FloatLexeme(s) => TokenKind::FloatLexeme(s.clone()),
            TokenKind::Bool(b) => TokenKind::Bool(*b),
        }
    }

    /// Appends the description of this token kind to `s`.
    pub fn push_description(&self, s: &mut String)
        ensures
            final(s)@ == old(s)@ + spec_token_description(*self),
    {
        proof {
            reveal_strlit("EOF");
            reveal_strlit("EOL");
            reveal_strlit("Plus");
            reveal_strlit("Minus");
            reveal_strlit("Asterisk");
            reveal_strlit("Slash");
            reveal_strlit("Equal");
            reveal_strlit("NotEqual");
            reveal_strlit("Modulo");
            reveal_strlit("Less");
            reveal_strlit("LessEqual");
            reveal_strlit("Greater");
            reveal_strlit("GreaterEqual");
            reveal_strlit("Assign");
            reveal_strlit("And");
            reveal_strlit("Or");
            reveal_strlit("Not");
            reveal_strlit("If");
            reveal_strlit("Else");
            reveal_strlit("Let");
            reveal_strlit("While");
            reveal_strlit("Return");
            reveal_strlit("External");
            reveal_strlit("Import");
            reveal_strlit("ParenL");
            reveal_strlit("ParenR");
            reveal_strlit("BracketL");
            reveal_strlit("BracketR");
            reveal_strlit("BraceL");
            reveal_strlit("BraceR");
            reveal_strlit("Comma");
            reveal_strlit("DotDot");
            reveal_strlit("Colon");
            reveal_strlit("DataType(");
            reveal_strlit(")");
            reveal_strlit("Ident(");
            reveal_strlit("StringLiteral(");
            reveal_strlit("Int(");
            reveal_strlit("Float");
            reveal_strlit("Float(");
            reveal_strlit("Bool(true)");
            reveal_strlit("Bool(false)");
        }
        match self {
            TokenKind::EOF => push_str(s, "EOF"),
            TokenKind::EOL => push_str(s, "EOL"),
            TokenKind::Plus => push_str(s, "Plus"),
            TokenKind::Minus => push_str(s, "Minus"),
            TokenKind::Asterisk => push_str(s, "Asterisk"),
            TokenKind::Slash => push_str(s, "Slash"),
            TokenKind::Equal => push_str(s, "Equal"),
            TokenKind::NotEqual => push_str(s, "NotEqual"),
            TokenKind::Modulo => push_str(s, "Modulo"),
            TokenKind::Less => push_str(s, "Less"),
            TokenKind::LessEqual => push_str(s, "LessEqual"),
            TokenKind::Greater => push_str(s, "Greater"),
            TokenKind::GreaterEqual => push_str(s, "GreaterEqual"),
            TokenKind::Assign => push_str(s, "Assign"),
            TokenKind::And => push_str(s, "And"),
            TokenKind::Or => push_str(s, "Or"),
            TokenKind::Not => push_str(s, "Not"),
            TokenKind::If => push_str(s, "If"),
            TokenKind::Else => push_str(s, "Else"),
            TokenKind::Let => push_str(s, "Let"),
            TokenKind::While => push_str(s, "While"),
            TokenKind::Return => push_str(s, "Return"),
            TokenKind::External => push_str(s, "External"),
            TokenKind::Import => push_str(s, "Import"),
            TokenKind::ParenL => push_str(s, "ParenL"),
            TokenKind::ParenR => push_str(s, "ParenR"),
            TokenKind::BracketL => push_str(s, "BracketL"),
            TokenKind::BracketR => push_str(s, "BracketR"),
            TokenKind::BraceL => push_str(s, "BraceL"),
            TokenKind::BraceR => push_str(s, "BraceR"),
            TokenKind::Comma => push_str(s, "Comma"),
            TokenKind::DotDot => push_str(s, "DotDot"),
            TokenKind::Colon => push_str(s, "Colon"),
            TokenKind::DataType(t) => {
                push_str(s, "DataType(");
                t.push_debug(s);
                push_str(s, ")");
                assert(final(s)@ =~= old(s)@ + spec_token_description(*self));
            },
            TokenKind::Ident(x) => {
                push_str(s, "Ident(");
                let q = debug_str(x.as_str());
                push_str(s, q.as_str());
                push_str(s, ")");
                assert(final(s)@ =~= old(s)@ + spec_token_description(*self));
            },
            TokenKind::StringLiteral(x) => {
                push_str(s, "StringLiteral(");
                let q = debug_str(x.as_str());
                push_str(s, q.as_str());
                push_str(s, ")");
                assert(final(s)@ =~= old(s)@ + spec_token_description(*self));
            },
            TokenKind::Int(i) => {
                push_str(s, "Int(");
                push_signed_decimal(s, *i as i64);
                push_str(s, ")");
                assert(final(s)@ =~= old(s)@ + spec_token_description(*self));
            },
            TokenKind::Float(_) => push_str(s, "Float"),
            TokenKind::FloatLexeme(x) => {
                push_str(s, "Float(");
                push_str(s, x.as_str());
                push_str(s, ")");
                assert(final(s)@ =~= old(s)@ + spec_token_description(*self));
            },
            TokenKind::Bool(b) => {
                if *b {
                    push_str(s, "Bool(true)")
                } else {
                    push_str(s, "Bool(false)")
                }
            },
        }
    }
}

} // verus!
