//! The lexer: source text to tokens with byte spans.
use vstd::prelude::*;
use vstd::utf8::encode_utf8;
use vstd::string::StringSliceAdditionalSpecFns;
use super::chars::{
    char_len, chars_of, is_ascii_alphabetic, is_ascii_digit, is_ident_char, is_whitespace, len_utf8,
    lemma_offset_bounds, lemma_offset_step, lemma_offset_zero, offset, spec_is_alpha, spec_is_digit,
    spec_is_ident_char, spec_is_whitespace,
};
use super::token::{Token, TokenKind, TokenKindView, TokenView};
use super::parser::{binary_op_token, same_file};
use crate::ast::BinaryOp;
use crate::data_type::DataType;
use crate::diagnostics::Span;
use crate::errors::{
    CompileError, CompileErrorView, spec_unexpected_char_at, spec_unexpected_end_of_file_at,
};
use crate::text::{push_char, str_equal, string_of};

verus! {

/// The span from the `i`-th to the `j`-th character, in bytes.
pub open spec fn span_of(file: usize, chars: Seq<char>, i: int, j: int) -> Span {
    Span { file, lo: offset(chars, i) as usize, hi: offset(chars, j) as usize }
}

/// The measure that the lexer's recursion decreases.
pub open spec fn remaining(len: int, i: int) -> int {
    if i < len { len - i } else { 0 }
}

pub open spec fn tok(kind: TokenKindView, span: Span) -> TokenView {
    TokenView { kind, span }
}

/// The tokens made of one character.
pub open spec fn spec_single_char_kind(c: char) -> Option<TokenKindView> {
    if c == '+' { Some(TokenKindView::Plus) }
    else if c == '-' { Some(TokenKindView::Minus) }
    else if c == '*' { Some(TokenKindView::Asterisk) }
    else if c == '/' { Some(TokenKindView::Slash) }
    else if c == '%' { Some(TokenKindView::Modulo) }
    else if c == '(' { Some(TokenKindView::ParenL) }
    else if c == ')' { Some(TokenKindView::ParenR) }
    else if c == '[' { Some(TokenKindView::BracketL) }
    else if c == ']' { Some(TokenKindView::BracketR) }
    else if c == '{' { Some(TokenKindView::BraceL) }
    else if c == '}' { Some(TokenKindView::BraceR) }
    else if c == ',' { Some(TokenKindView::Comma) }
    else if c == ':' { Some(TokenKindView::Colon) }
    else { None }
}

/// Distinct characters make distinct one-character tokens.
pub proof fn lemma_single_char_kinds_distinct(c: char, d: char)
    requires
        c != d,
        spec_single_char_kind(c) is Some,
        spec_single_char_kind(d) is Some,
    ensures
        spec_single_char_kind(c) != spec_single_char_kind(d),
{
}

/// How a binary operator is written in source text.
pub open spec fn binary_op_spelling(op: BinaryOp) -> Seq<char> {
    match op {
        BinaryOp::Add => seq!['+'],
        BinaryOp::Sub => seq!['-'],
        BinaryOp::Mul => seq!['*'],
        BinaryOp::Div => seq!['/'],
        BinaryOp::Modulo => seq!['%'],
        BinaryOp::Equal => seq!['=', '='],
        BinaryOp::NotEqual => seq!['!', '='],
        BinaryOp::Less => seq!['<'],
        BinaryOp::LessEqual => seq!['<', '='],
        BinaryOp::Greater => seq!['>'],
        BinaryOp::GreaterEqual => seq!['>', '='],
        BinaryOp::And => seq!['&', '&'],
        BinaryOp::Or => seq!['|', '|'],
    }
}

/// Each binary operator, written alone, lexes to one token, which the parser
/// reads as that same operator, and the end-of-line token.
pub proof fn lemma_operator_spelling_lexes(file: usize, op: BinaryOp)
    ensures
        spec_tokenize(file, binary_op_spelling(op)) matches Ok(ts) && ts.len() == 2 && ts[1].kind is EOL
            && forall|k: TokenKind| #[trigger] k@ == ts[0].kind ==> binary_op_token(k) == Some(op),
{
    reveal_with_fuel(lex_from, 4);
    let s = binary_op_spelling(op);
    assert(s.len() == 1 ==> s[0] != '#' && s[0] != '\'' && s[0] != ';' && s[0] != '\n' && !spec_is_whitespace(s[0]));
    assert(s.len() == 2 ==> spec_single_char_kind(s[0]) is None && s[0] != '#' && s[0] != '\'' && s[0] != ';'
        && s[0] != '\n' && !spec_is_whitespace(s[0]) && s[1] == double_spec(s[0]).unwrap().0);
    assert(spec_tokenize(file, s) matches Ok(ts) && ts.len() == 2 && ts[1].kind is EOL);
}

/// The token made of the one character `c`, spanning `lo..hi` of file
/// `file_id`, if `c` is one of them.
fn get_single_char_token(file_id: usize, c: char, lo: usize, hi: usize) -> (t: Option<Token>)
    ensures
        match spec_single_char_kind(c) {
            Some(v) => t matches Some(x) && x@ == tok(v, Span { file: file_id, lo, hi }),
            None => t is None,
        },
{
    let kind = if c == '+' { TokenKind::Plus }
    else if c == '-' { TokenKind::Minus }
    else if c == '*' { TokenKind::Asterisk }
    else if c == '/' { TokenKind::Slash }
    else if c == '%' { TokenKind::Modulo }
    else if c == '(' { TokenKind::ParenL }
    else if c == ')' { TokenKind::ParenR }
    else if c == '[' { TokenKind::BracketL }
    else if c == ']' { TokenKind::BracketR }
    else if c == '{' { TokenKind::BraceL }
    else if c == '}' { TokenKind::BraceR }
    else if c == ',' { TokenKind::Comma }
    else if c == ':' { TokenKind::Colon }
    else { return None; };
    Some(Token::new(kind, Span::new(file_id, lo, hi)))
}

/// The index of the first newline at or after `j`, or the end.
pub open spec fn comment_end(chars: Seq<char>, j: int) -> int
    decreases remaining(chars.len() as int, j),
{
    if j >= chars.len() || j < 0 {
        chars.len() as int
    } else if chars[j] == '\n' {
        j
    } else {
        comment_end(chars, j + 1)
    }
}

/// Where lexing goes on after a comment whose `#` is at `i`: past the newline that ends it.
pub open spec fn after_comment(chars: Seq<char>, i: int) -> int {
    let e = comment_end(chars, i + 1);
    if e < chars.len() { e + 1 } else { e }
}

/// The character an escape `\c` stands for.
pub open spec fn spec_unescape(c: char) -> char {
    if c == 'n' { '\n' } else if c == 't' { '\t' } else { c }
}

/// Reads the body of a string literal from `j`: the text so far `acc`,
/// whether a closing quote was found, and where lexing goes on.
pub open spec fn scan_string(chars: Seq<char>, j: int, acc: Seq<char>) -> (Seq<char>, bool, int)
    decreases remaining(chars.len() as int, j),
{
    if j >= chars.len() || j < 0 {
        (acc, false, chars.len() as int)
    } else if chars[j] == '\\' {
        if j + 1 < chars.len() {
            scan_string(chars, j + 2, acc.push(spec_unescape(chars[j + 1])))
        } else {
            (acc, false, chars.len() as int)
        }
    } else if chars[j] == '\'' {
        (acc, true, j + 1)
    } else {
        scan_string(chars, j + 1, acc.push(chars[j]))
    }
}

/// A string literal whose opening quote is at `i`. A literal that the end of
/// the input cuts off is kept, with a span reaching to the end of the input.
pub open spec fn lex_string(file: usize, chars: Seq<char>, i: int) -> (TokenView, int) {
    let (text, closed, next) = scan_string(chars, i + 1, Seq::empty());
    let hi = if closed { offset(chars, next) } else { encode_utf8(chars).len() };
    (tok(TokenKindView::StringLiteral(text), Span { file, lo: offset(chars, i) as usize, hi: hi as usize }), next)
}

/// The end of the run of digits that starts at `j`.
pub open spec fn digits_end(chars: Seq<char>, j: int) -> int
    decreases remaining(chars.len() as int, j),
{
    if j >= chars.len() || j < 0 || !spec_is_digit(chars[j]) {
        j
    } else {
        digits_end(chars, j + 1)
    }
}

/// The end of the run of identifier characters that starts at `j`.
pub open spec fn ident_end(chars: Seq<char>, j: int) -> int
    decreases remaining(chars.len() as int, j),
{
    if j >= chars.len() || j < 0 || !spec_is_ident_char(chars[j]) {
        j
    } else {
        ident_end(chars, j + 1)
    }
}

/// The number that a string of decimal digits denotes.
pub open spec fn digits_value(s: Seq<char>) -> nat
    decreases s.len(),
{
    if s.len() == 0 {
        0
    } else {
        digits_value(s.drop_last()) * 10 + ((s.last() as u32) - ('0' as u32)) as nat
    }
}

/// A number whose first digit is at `i`: an integer, or (with a `.`) a float
/// literal kept as written. An integer above `i32::MAX` is an error.
pub open spec fn lex_number(file: usize, chars: Seq<char>, i: int) -> Result<(TokenView, int), CompileErrorView> {
    let e1 = digits_end(chars, i);
    if e1 < chars.len() && chars[e1] == '.' {
        let e2 = digits_end(chars, e1 + 1);
        Ok((tok(TokenKindView::FloatLexeme(chars.subrange(i, e2)), span_of(file, chars, i, e2)), e2))
    } else {
        let v = digits_value(chars.subrange(i, e1));
        if v <= i32::MAX {
            Ok((tok(TokenKindView::Int(v as i32), span_of(file, chars, i, e1)), e1))
        } else {
            Err(spec_unexpected_char_at('0', span_of(file, chars, i, e1)))
        }
    }
}

/// The token for a word: a keyword, a type name, a boolean, or an identifier.
pub open spec fn keyword_kind(w: Seq<char>) -> TokenKindView {
    if w == "Int"@ { TokenKindView::DataType(DataType::Int) }
    else if w == "Float"@ { TokenKindView::DataType(DataType::Float) }
    else if w == "Bool"@ { TokenKindView::DataType(DataType::Bool) }
    else if w == "String"@ { TokenKindView::DataType(DataType::String) }
    else if w == "Void"@ { TokenKindView::DataType(DataType::Void) }
    else if w == "true"@ { TokenKindView::Bool(true) }
    else if w == "false"@ { TokenKindView::Bool(false) }
    else if w == "let"@ { TokenKindView::Let }
    else if w == "if"@ { TokenKindView::If }
    else if w == "else"@ { TokenKindView::Else }
    else if w == "while"@ { TokenKindView::While }
    else if w == "return"@ { TokenKindView::Return }
    else if w == "import"@ { TokenKindView::Import }
    else { TokenKindView::Ident(w) }
}

/// A word whose first character is at `i`.
pub open spec fn lex_ident(file: usize, chars: Seq<char>, i: int) -> (TokenView, int) {
    let e = ident_end(chars, i);
    (tok(keyword_kind(chars.subrange(i, e)), span_of(file, chars, i, e)), e)
}

/// A token of one or two characters whose first character is at `i`: the
/// double token when `expected` follows, else the single one; when `require`
/// is set the second character must be there and be `expected`.
pub open spec fn lex_double(
    file: usize,
    chars: Seq<char>,
    i: int,
    expected: char,
    single: TokenKindView,
    double: TokenKindView,
    require: bool,
) -> Result<(TokenView, int), CompileErrorView> {
    if i + 1 >= chars.len() {
        if require {
            Err(spec_unexpected_end_of_file_at(span_of(file, chars, i + 1, i + 1)))
        } else {
            Ok((tok(single, span_of(file, chars, i, i + 1)), i + 1))
        }
    } else if chars[i + 1] != expected && require {
        Err(spec_unexpected_char_at(chars[i + 1], span_of(file, chars, i + 1, i + 2)))
    } else if chars[i + 1] == expected {
        Ok((tok(double, span_of(file, chars, i, i + 2)), i + 2))
    } else {
        Ok((tok(single, span_of(file, chars, i, i + 1)), i + 1))
    }
}

/// The characters that start a one-or-two-character token, with the second
/// character, the two token kinds, and whether the second is required.
pub open spec fn double_spec(c: char) -> Option<(char, TokenKindView, TokenKindView, bool)> {
    if c == '.' { Some(('.', TokenKindView::EOF, TokenKindView::DotDot, true)) }
    else if c == '!' { Some(('=', TokenKindView::Not, TokenKindView::NotEqual, false)) }
    else if c == '=' { Some(('=', TokenKindView::Assign, TokenKindView::Equal, false)) }
    else if c == '<' { Some(('=', TokenKindView::Less, TokenKindView::LessEqual, false)) }
    else if c == '>' { Some(('=', TokenKindView::Greater, TokenKindView::GreaterEqual, false)) }
    else if c == '&' { Some(('&', TokenKindView::And, TokenKindView::And, true)) }
    else if c == '|' { Some(('|', TokenKindView::Or, TokenKindView::Or, true)) }
    else { None }
}

pub proof fn lemma_comment_end(chars: Seq<char>, j: int)
    requires
        0 <= j <= chars.len(),
    ensures
        j <= comment_end(chars, j) <= chars.len(),
        comment_end(chars, j) < chars.len() ==> chars[comment_end(chars, j)] == '\n',
        forall|k: int| j <= k < comment_end(chars, j) ==> chars[k] != '\n',
    decreases chars.len() - j,
{
    if j < chars.len() && chars[j] != '\n' {
        lemma_comment_end(chars, j + 1);
    }
}

pub proof fn lemma_scan_string(chars: Seq<char>, j: int, acc: Seq<char>)
    requires
        0 <= j <= chars.len(),
    ensures
        j <= scan_string(chars, j, acc).2 <= chars.len(),
        scan_string(chars, j, acc).1 ==> j < scan_string(chars, j, acc).2
            && chars[scan_string(chars, j, acc).2 - 1] == '\'',
    decreases chars.len() - j,
{
    if j < chars.len() {
        if chars[j] == '\\' {
            if j + 1 < chars.len() {
                lemma_scan_string(chars, j + 2, acc.push(spec_unescape(chars[j + 1])));
            }
        } else if chars[j] != '\'' {
            lemma_scan_string(chars, j + 1, acc.push(chars[j]));
        }
    }
}

pub proof fn lemma_digits_end(chars: Seq<char>, j: int)
    requires
        0 <= j <= chars.len(),
    ensures
        j <= digits_end(chars, j) <= chars.len(),
        forall|k: int| j <= k < digits_end(chars, j) ==> spec_is_digit(chars[k]),
        digits_end(chars, j) < chars.len() ==> !spec_is_digit(chars[digits_end(chars, j)]),
    decreases chars.len() - j,
{
    if j < chars.len() && spec_is_digit(chars[j]) {
        lemma_digits_end(chars, j + 1);
    }
}

pub proof fn lemma_ident_end(chars: Seq<char>, j: int)
    requires
        0 <= j <= chars.len(),
    ensures
        j <= ident_end(chars, j) <= chars.len(),
        forall|k: int| j <= k < ident_end(chars, j) ==> spec_is_ident_char(chars[k]),
        ident_end(chars, j) < chars.len() ==> !spec_is_ident_char(chars[ident_end(chars, j)]),
    decreases chars.len() - j,
{
    if j < chars.len() && spec_is_ident_char(chars[j]) {
        lemma_ident_end(chars, j + 1);
    }
}

/// Lexes from the `i`-th character on, after the tokens `tokens`; the input
/// ends with an end-of-line token spanning no bytes at the end of the input.
pub open spec fn lex_from(file: usize, chars: Seq<char>, i: int, tokens: Seq<TokenView>) -> Result<Seq<TokenView>, CompileErrorView>
    decreases remaining(chars.len() as int, i),
{
    if i >= chars.len() || i < 0 {
        Ok(tokens.push(eol_at_end(file, chars)))
    } else {
        let c = chars[i];
        if let Some(k) = spec_single_char_kind(c) {
            lex_from(file, chars, i + 1, tokens.push(tok(k, span_of(file, chars, i, i + 1))))
        } else if c == '#' {
            proof {
                lemma_comment_end(chars, i + 1);
            }
            lex_from(file, chars, after_comment(chars, i), tokens)
        } else if c == '\'' {
            proof {
                lemma_scan_string(chars, i + 1, Seq::empty());
            }
            let (t, next) = lex_string(file, chars, i);
            lex_from(file, chars, next, tokens.push(t))
        } else if c == ';' || c == '\n' {
            if tokens.len() > 0 && tokens.last().kind is EOL {
                lex_from(file, chars, i + 1, tokens)
            } else {
                lex_from(file, chars, i + 1, tokens.push(tok(TokenKindView::EOL, span_of(file, chars, i, i + 1))))
            }
        } else if spec_is_whitespace(c) {
            lex_from(file, chars, i + 1, tokens)
        } else if let Some((expected, single, double, require)) = double_spec(c) {
            match lex_double(file, chars, i, expected, single, double, require) {
                Ok((t, next)) => lex_from(file, chars, next, tokens.push(t)),
                Err(e) => Err(e),
            }
        } else if spec_is_digit(c) {
            proof {
                lemma_digits_end(chars, i);
                if digits_end(chars, i) < chars.len() {
                    lemma_digits_end(chars, digits_end(chars, i) + 1);
                }
            }
            match lex_number(file, chars, i) {
                Ok((t, next)) => lex_from(file, chars, next, tokens.push(t)),
                Err(e) => Err(e),
            }
        } else if spec_is_alpha(c) || c == '_' {
            proof {
                lemma_ident_end(chars, i);
            }
            let (t, next) = lex_ident(file, chars, i);
            lex_from(file, chars, next, tokens.push(t))
        } else {
            Err(spec_unexpected_char_at(c, span_of(file, chars, i, i + 1)))
        }
    }
}

/// The end-of-line token that ends the input: no bytes, at its end.
pub open spec fn eol_at_end(file: usize, chars: Seq<char>) -> TokenView {
    let end = encode_utf8(chars).len() as usize;
    tok(TokenKindView::EOL, Span { file, lo: end, hi: end })
}

/// Every token lies in file `file`.
pub open spec fn all_in_file(ts: Seq<TokenView>, file: usize) -> bool {
    forall|k: int| 0 <= k < ts.len() ==> (#[trigger] ts[k]).span.file == file
}

/// Lexing keeps every token in the one file and ends with an end-of-line
/// token spanning no bytes at the end of the input.
pub proof fn lemma_lex_from_shape(file: usize, chars: Seq<char>, i: int, tokens: Seq<TokenView>)
    requires
        all_in_file(tokens, file),
    ensures
        lex_from(file, chars, i, tokens) matches Ok(ts) ==> all_in_file(ts, file) && ts.len() > 0
            && ts.last() == eol_at_end(file, chars),
    decreases remaining(chars.len() as int, i),
{
    if i < chars.len() && i >= 0 {
        let c = chars[i];
        if let Some(k) = spec_single_char_kind(c) {
            lemma_lex_from_shape(file, chars, i + 1, tokens.push(tok(k, span_of(file, chars, i, i + 1))));
        } else if c == '#' {
            lemma_comment_end(chars, i + 1);
            lemma_lex_from_shape(file, chars, after_comment(chars, i), tokens);
        } else if c == '\'' {
            lemma_scan_string(chars, i + 1, Seq::empty());
            let (t, next) = lex_string(file, chars, i);
            lemma_lex_from_shape(file, chars, next, tokens.push(t));
        } else if c == ';' || c == '\n' {
            if tokens.len() > 0 && tokens.last().kind is EOL {
                lemma_lex_from_shape(file, chars, i + 1, tokens);
            } else {
                lemma_lex_from_shape(file, chars, i + 1, tokens.push(tok(TokenKindView::EOL, span_of(file, chars, i, i + 1))));
            }
        } else if spec_is_whitespace(c) {
            lemma_lex_from_shape(file, chars, i + 1, tokens);
        } else if let Some((expected, single, double, require)) = double_spec(c) {
            if let Ok((t, next)) = lex_double(file, chars, i, expected, single, double, require) {
                lemma_lex_from_shape(file, chars, next, tokens.push(t));
            }
        } else if spec_is_digit(c) {
            lemma_digits_end(chars, i);
            if digits_end(chars, i) < chars.len() {
                lemma_digits_end(chars, digits_end(chars, i) + 1);
            }
            if let Ok((t, next)) = lex_number(file, chars, i) {
                lemma_lex_from_shape(file, chars, next, tokens.push(t));
            }
        } else if spec_is_alpha(c) || c == '_' {
            lemma_ident_end(chars, i);
            let (t, next) = lex_ident(file, chars, i);
            lemma_lex_from_shape(file, chars, next, tokens.push(t));
        }
    }
}

/// What `tokenize` gives for the characters of an input.
pub open spec fn spec_tokenize(file: usize, chars: Seq<char>) -> Result<Seq<TokenView>, CompileErrorView> {
    lex_from(file, chars, 0, Seq::empty())
}


/// The views of a sequence of tokens.
pub open spec fn token_views(ts: Seq<Token>) -> Seq<TokenView> {
    ts.map_values(|t: Token| t@)
}

fn scan_comment(chars: &Vec<char>, j: usize, byte: usize) -> (r: (usize, usize))
    requires
        j <= chars@.len(),
        byte == offset(chars@, j as int),
        encode_utf8(chars@).len() <= usize::MAX,
    ensures
        r.0 == comment_end(chars@, j as int),
        r.1 == offset(chars@, r.0 as int),
{
    let n = chars.len();
    let mut k: usize = j;
    let mut b: usize = byte;
    while k < n && chars[k] != '\n'
        invariant
            n == chars@.len(),
            j <= k <= n,
            b == offset(chars@, k as int),
            encode_utf8(chars@).len() <= usize::MAX,
            comment_end(chars@, j as int) == comment_end(chars@, k as int),
        decreases n - k,
    {
        proof {
            lemma_offset_step(chars@, k as int);
        }
        b = b + len_utf8(chars[k]);
        k = k + 1;
    }
    (k, b)
}

fn unescape(c: char) -> (r: char)
    ensures
        r == spec_unescape(c),
{
    if c == 'n' {
        '\n'
    } else if c == 't' {
        '\t'
    } else {
        c
    }
}

/// Reads a string literal whose opening quote is at `i`.
fn tokenize_string(file: usize, chars: &Vec<char>, i: usize, byte: usize, total: usize) -> (r: (Token, usize, usize))
    requires
        i < chars@.len(),
        byte == offset(chars@, i as int),
        total == encode_utf8(chars@).len(),
    ensures
        r.0@ == lex_string(file, chars@, i as int).0,
        r.1 == lex_string(file, chars@, i as int).1,
        r.2 == offset(chars@, r.1 as int),
        i < r.1 <= chars@.len(),
{
    let n = chars.len();
    proof {
        lemma_offset_step(chars@, i as int);
        lemma_scan_string(chars@, i + 1, Seq::empty());
    }
    let mut text = string_of("");
    proof {
        reveal_strlit("");
    }
    let mut k: usize = i + 1;
    let mut b: usize = byte + len_utf8(chars[i]);
    let mut closed: bool = false;
    assert(text@ =~= Seq::<char>::empty());
    while k < n
        invariant_except_break
            n == chars@.len(),
            i < k <= n,
            !closed,
            b == offset(chars@, k as int),
            total == encode_utf8(chars@).len(),
            scan_string(chars@, i + 1, Seq::empty()) == scan_string(chars@, k as int, text@),
        ensures
            i < k <= n,
            b == offset(chars@, k as int),
            closed ==> scan_string(chars@, i + 1, Seq::empty()) == (text@, true, k as int),
            !closed ==> scan_string(chars@, i + 1, Seq::empty()) == (text@, false, n as int),
        decreases n - k,
    {
        let c = chars[k];
        proof {
            lemma_offset_step(chars@, k as int);
        }
        if c == '\\' {
            if k + 1 < n {
                proof {
                    lemma_offset_step(chars@, k + 1);
                }
                push_char(&mut text, unescape(chars[k + 1]));
                b = b + len_utf8(c) + len_utf8(chars[k + 1]);
                k = k + 2;
            } else {
                b = b + len_utf8(c);
                k = k + 1;
                break;
            }
        } else if c == '\'' {
            b = b + len_utf8(c);
            k = k + 1;
            closed = true;
            break;
        } else {
            push_char(&mut text, c);
            b = b + len_utf8(c);
            k = k + 1;
        }
    }
    let hi: usize = if closed { b } else { total };
    (Token::new(TokenKind::StringLiteral(text), Span::new(file, byte, hi)), if closed { k } else { n }, if closed { b } else {
        proof {
            lemma_offset_bounds(chars@, n as int);
        }
        total
    })
}

/// Whether `c` belongs to the class that `scan_run` scans: digits, or identifier characters.
fn in_class(c: char, digits: bool) -> (r: bool)
    ensures
        r == (if digits { spec_is_digit(c) } else { spec_is_ident_char(c) }),
{
    if digits {
        is_ascii_digit(c)
    } else {
        is_ident_char(c)
    }
}

/// Scans the run of characters of the given class from `j`: digits, or identifier characters.
fn scan_run(chars: &Vec<char>, j: usize, byte: usize, digits: bool) -> (r: (usize, usize))
    requires
        j <= chars@.len(),
        byte == offset(chars@, j as int),
        encode_utf8(chars@).len() <= usize::MAX,
    ensures
        digits ==> r.0 == digits_end(chars@, j as int),
        !digits ==> r.0 == ident_end(chars@, j as int),
        r.1 == offset(chars@, r.0 as int),
{
    let n = chars.len();
    let mut k: usize = j;
    let mut b: usize = byte;
    while k < n && in_class(chars[k], digits)
        invariant
            n == chars@.len(),
            j <= k <= n,
            b == offset(chars@, k as int),
            encode_utf8(chars@).len() <= usize::MAX,
            digits ==> digits_end(chars@, j as int) == digits_end(chars@, k as int),
            !digits ==> ident_end(chars@, j as int) == ident_end(chars@, k as int),
        decreases n - k,
    {
        proof {
            lemma_offset_step(chars@, k as int);
        }
        b = b + len_utf8(chars[k]);
        k = k + 1;
    }
    (k, b)
}

/// Reads a number whose first digit is at `i`.
fn tokenize_number(file: usize, chars: &Vec<char>, i: usize, byte: usize) -> (r: Result<(Token, usize, usize), CompileError>)
    requires
        i < chars@.len(),
        spec_is_digit(chars@[i as int]),
        byte == offset(chars@, i as int),
        encode_utf8(chars@).len() <= usize::MAX,
    ensures
        match lex_number(file, chars@, i as int) {
            Ok((t, next)) => r matches Ok(x) && x.0@ == t && x.1 == next && x.2 == offset(chars@, next),
            Err(e) => r matches Err(x) && x@ == e,
        },
        r matches Ok(x) ==> i < x.1 <= chars@.len(),
{
    let n = chars.len();
    let (e1, b1) = scan_run(chars, i, byte, true);
    proof {
        lemma_digits_end(chars@, i as int);
    }
    if e1 < n && chars[e1] == '.' {
        proof {
            lemma_offset_step(chars@, e1 as int);
        }
        let (e2, b2) = scan_run(chars, e1 + 1, b1 + len_utf8('.'), true);
        proof {
            lemma_digits_end(chars@, e1 + 1);
        }
        let mut text = string_of("");
        proof {
            reveal_strlit("");
        }
        let mut k: usize = i;
        while k < e2
            invariant
                i <= k <= e2 <= chars@.len(),
                text@ == chars@.subrange(i as int, k as int),
            decreases e2 - k,
        {
            push_char(&mut text, chars[k]);
            k = k + 1;
            assert(text@ =~= chars@.subrange(i as int, k as int));
        }
        Ok((Token::new(TokenKind::FloatLexeme(text), Span::new(file, byte, b2)), e2, b2))
    } else {
        let mut value: u64 = 0;
        let mut too_big: bool = false;
        let mut k: usize = i;
        while k < e1
            invariant
                i <= k <= e1 <= chars@.len(),
                forall|m: int| i <= m < e1 ==> spec_is_digit(chars@[m]),
                !too_big ==> value == digits_value(chars@.subrange(i as int, k as int)) && value <= i32::MAX,
                too_big ==> digits_value(chars@.subrange(i as int, k as int)) > i32::MAX,
            decreases e1 - k,
        {
            let d: u64 = (chars[k] as u32 - '0' as u32) as u64;
            assert(chars@.subrange(i as int, k + 1).drop_last() =~= chars@.subrange(i as int, k as int));
            if !too_big {
                value = value * 10 + d;
                if value > 2147483647 {
                    too_big = true;
                }
            }
            k = k + 1;
        }
        if too_big {
            Err(CompileError::unexpected_char_at('0', Span::new(file, byte, b1)))
        } else {
            Ok((Token::new(TokenKind::Int(value as i32), Span::new(file, byte, b1)), e1, b1))
        }
    }
}

fn match_kw(w: &String) -> (k: TokenKind)
    ensures
        k@ == keyword_kind(w@),
{
    proof {
        reveal_strlit("Int");
        reveal_strlit("Float");
        reveal_strlit("Bool");
        reveal_strlit("String");
        reveal_strlit("Void");
        reveal_strlit("true");
        reveal_strlit("false");
        reveal_strlit("let");
        reveal_strlit("if");
        reveal_strlit("else");
        reveal_strlit("while");
        reveal_strlit("return");
        reveal_strlit("import");
    }
    let s = w.as_str();
    if str_equal(s, "Int") { TokenKind::DataType(DataType::Int) }
    else if str_equal(s, "Float") { TokenKind::DataType(DataType::Float) }
    else if str_equal(s, "Bool") { TokenKind::DataType(DataType::Bool) }
    else if str_equal(s, "String") { TokenKind::DataType(DataType::String) }
    else if str_equal(s, "Void") { TokenKind::DataType(DataType::Void) }
    else if str_equal(s, "true") { TokenKind::Bool(true) }
    else if str_equal(s, "false") { TokenKind::Bool(false) }
    else if str_equal(s, "let") { TokenKind::Let }
    else if str_equal(s, "if") { TokenKind::If }
    else if str_equal(s, "else") { TokenKind::Else }
    else if str_equal(s, "while") { TokenKind::While }
    else if str_equal(s, "return") { TokenKind::Return }
    else if str_equal(s, "import") { TokenKind::Import }
    else { TokenKind::Ident(w.clone()) }
}

/// Reads a word whose first character is at `i`.
fn tokenize_ident(file: usize, chars: &Vec<char>, i: usize, byte: usize) -> (r: (Token, usize, usize))
    requires
        i < chars@.len(),
        spec_is_ident_char(chars@[i as int]),
        byte == offset(chars@, i as int),
        encode_utf8(chars@).len() <= usize::MAX,
    ensures
        r.0@ == lex_ident(file, chars@, i as int).0,
        r.1 == lex_ident(file, chars@, i as int).1,
        r.2 == offset(chars@, r.1 as int),
        i < r.1 <= chars@.len(),
{
    let (e, b) = scan_run(chars, i, byte, false);
    proof {
        lemma_ident_end(chars@, i as int);
    }
    let mut word = string_of("");
    proof {
        reveal_strlit("");
    }
    let mut k: usize = i;
    while k < e
        invariant
            i <= k <= e <= chars@.len(),
            word@ == chars@.subrange(i as int, k as int),
        decreases e - k,
    {
        push_char(&mut word, chars[k]);
        k = k + 1;
        assert(word@ =~= chars@.subrange(i as int, k as int));
    }
    (Token::new(match_kw(&word), Span::new(file, byte, b)), e, b)
}

fn double_kinds(c: char) -> (r: Option<(char, TokenKind, TokenKind, bool)>)
    ensures
        match double_spec(c) {
            Some((e, s, d, q)) => r matches Some(x) && x.0 == e && x.1@ == s && x.2@ == d && x.3 == q,
            None => r is None,
        },
{
    if c == '.' { Some(('.', TokenKind::EOF, TokenKind::DotDot, true)) }
    else if c == '!' { Some(('=', TokenKind::Not, TokenKind::NotEqual, false)) }
    else if c == '=' { Some(('=', TokenKind::Assign, TokenKind::Equal, false)) }
    else if c == '<' { Some(('=', TokenKind::Less, TokenKind::LessEqual, false)) }
    else if c == '>' { Some(('=', TokenKind::Greater, TokenKind::GreaterEqual, false)) }
    else if c == '&' { Some(('&', TokenKind::And, TokenKind::And, true)) }
    else if c == '|' { Some(('|', TokenKind::Or, TokenKind::Or, true)) }
    else { None }
}

/// Reads a token of one or two characters whose first character is at `i`.
fn consume_optional_double(
    file: usize,
    chars: &Vec<char>,
    i: usize,
    byte: usize,
    expected_second: char,
    single_tok: TokenKind,
    double_tok: TokenKind,
    require_double: bool,
) -> (r: Result<(Token, usize, usize), CompileError>)
    requires
        i < chars@.len(),
        byte == offset(chars@, i as int),
        encode_utf8(chars@).len() <= usize::MAX,
    ensures
        match lex_double(file, chars@, i as int, expected_second, single_tok@, double_tok@, require_double) {
            Ok((t, next)) => r matches Ok(x) && x.0@ == t && x.1 == next && x.2 == offset(chars@, next),
            Err(e) => r matches Err(x) && x@ == e,
        },
        r matches Ok(x) ==> i < x.1 <= chars@.len(),
{
    let n = chars.len();
    proof {
        lemma_offset_step(chars@, i as int);
    }
    let b1 = byte + len_utf8(chars[i]);
    if i + 1 >= n {
        if require_double {
            return Err(CompileError::unexpected_end_of_file_at(Span::new(file, b1, b1)));
        }
        return Ok((Token::new(single_tok, Span::new(file, byte, b1)), i + 1, b1));
    }
    let c2 = chars[i + 1];
    proof {
        lemma_offset_step(chars@, i + 1);
    }
    let b2 = b1 + len_utf8(c2);
    if c2 != expected_second && require_double {
        Err(CompileError::unexpected_char_at(c2, Span::new(file, b1, b2)))
    } else if c2 == expected_second {
        Ok((Token::new(double_tok, Span::new(file, byte, b2)), i + 2, b2))
    } else {
        Ok((Token::new(single_tok, Span::new(file, byte, b1)), i + 1, b1))
    }
}

/// Splits source text into tokens, each with the byte span it was read
/// from in file `file_id`. Comments run from `#` to the end of the line;
/// `;` and newlines end statements (one end-of-line token for a run of
/// them); the text ends with an end-of-line token.
pub fn tokenize(file_id: usize, input: &str) -> (r: Result<Vec<Token>, CompileError>)
    ensures
        match spec_tokenize(file_id, input@) {
            Ok(ts) => r matches Ok(v) && token_views(v@) == ts,
            Err(e) => r matches Err(x) && x@ == e,
        },
        r matches Ok(v) ==> all_in_file(token_views(v@), file_id) && v@.len() > 0 && v@.last()@ == eol_at_end(file_id, input@),
        r matches Ok(v) ==> same_file(v@),
{
    proof {
        lemma_lex_from_shape(file_id, input@, 0, Seq::empty());
    }
    let chars = chars_of(input);
    let total = input.as_bytes().len();
    let n = chars.len();
    let mut tokens: Vec<Token> = Vec::new();
    let mut i: usize = 0;
    let mut byte: usize = 0;
    proof {
        lemma_offset_zero(chars@);
        assert(token_views(tokens@) =~= Seq::<TokenView>::empty());
    }
    while i < n
        invariant
            n == chars@.len(),
            chars@ == input@,
            total == encode_utf8(chars@).len(),
            i <= n,
            byte == offset(chars@, i as int),
            spec_tokenize(file_id, input@) == lex_from(file_id, chars@, i as int, token_views(tokens@)),
        decreases n - i,
    {
        let c = chars[i];
        let ghost before = token_views(tokens@);
        proof {
            lemma_offset_step(chars@, i as int);
        }
        let b = byte + len_utf8(c);
        if let Some(t) = get_single_char_token(file_id, c, byte, b) {
            let ghost tv = t@;
            tokens.push(t);
            assert(token_views(tokens@) =~= before.push(tv));
            i = i + 1;
            byte = b;
        } else if c == '#' {
            proof {
                lemma_comment_end(chars@, i + 1);
            }
            let (e, b) = scan_comment(&chars, i + 1, byte + len_utf8(c));
            if e < n {
                proof {
                    lemma_offset_step(chars@, e as int);
                }
                i = e + 1;
                byte = b + len_utf8(chars[e]);
            } else {
                i = e;
                byte = b;
            }
        } else if c == '\'' {
            let (t, next, b) = tokenize_string(file_id, &chars, i, byte, total);
            tokens.push(t);
            assert(token_views(tokens@) =~= before.push(lex_string(file_id, chars@, i as int).0));
            i = next;
            byte = b;
        } else if c == ';' || c == '\n' {
            let last_is_eol = tokens.len() > 0 && matches!(tokens[tokens.len() - 1].kind, TokenKind::EOL);
            if !last_is_eol {
                tokens.push(Token::new(TokenKind::EOL, Span::new(file_id, byte, byte + len_utf8(c))));
                assert(token_views(tokens@) =~= before.push(tok(TokenKindView::EOL, span_of(file_id, chars@, i as int, i + 1))));
            } else {
                assert(before.last().kind is EOL);
            }
            byte = byte + len_utf8(c);
            i = i + 1;
        } else if is_whitespace(c) {
            byte = byte + len_utf8(c);
            i = i + 1;
        } else if let Some((expected, single, double, require)) = double_kinds(c) {
            match consume_optional_double(file_id, &chars, i, byte, expected, single, double, require) {
                Ok((t, next, b)) => {
                    let ghost tv = t@;
                    tokens.push(t);
                    assert(token_views(tokens@) =~= before.push(tv));
                    i = next;
                    byte = b;
                },
                Err(e) => {
                    return Err(e);
                },
            }
        } else if is_ascii_digit(c) {
            proof {
                lemma_digits_end(chars@, i as int);
            }
            match tokenize_number(file_id, &chars, i, byte) {
                Ok((t, next, b)) => {
                    let ghost tv = t@;
                    tokens.push(t);
                    assert(token_views(tokens@) =~= before.push(tv));
                    i = next;
                    byte = b;
                },
                Err(e) => {
                    return Err(e);
                },
            }
        } else if is_ascii_alphabetic(c) || c == '_' {
            proof {
                lemma_ident_end(chars@, i as int);
            }
            let (t, next, b) = tokenize_ident(file_id, &chars, i, byte);
            let ghost tv = t@;
            tokens.push(t);
            assert(token_views(tokens@) =~= before.push(tv));
            i = next;
            byte = b;
        } else {
            return Err(CompileError::unexpected_char_at(c, Span::new(file_id, byte, byte + len_utf8(c))));
        }
    }
    let ghost before = token_views(tokens@);
    tokens.push(Token::new(TokenKind::EOL, Span::new(file_id, total, total)));
    assert(token_views(tokens@) =~= before.push(tok(TokenKindView::EOL, Span { file: file_id, lo: total, hi: total })));
    proof {
        assert forall|k: int| 0 <= k < tokens@.len() implies #[trigger] tokens@[k].span.file == tokens@[0].span.file by {
            assert(token_views(tokens@)[k].span == tokens@[k].span);
            assert(token_views(tokens@)[0].span == tokens@[0].span);
        }
    }
    Ok(tokens)
}

} // verus!
