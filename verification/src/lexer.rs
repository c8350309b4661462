//! The lexer: from source text to tokens with their spans.
//!
//! At each place the longest token is taken. Blanks, tabs and form feeds
//! separate tokens and are dropped; line ends and `;` are tokens. Where no
//! token begins, one character is an error and the lexer goes on behind it.

use vstd::prelude::*;
use vstd::string::StringExecFns;
use vstd::string::StringSliceAdditionalSpecFns;
use std::ops::Range;
use crate::stdlib::{digits_value, read_digits};
use crate::text::{
    byte_offset, digit_of, digit_value, lemma_byte_offset, string_chars, string_from_chars,
    trimmed_text, width_of, without_trailing,
};
use crate::tokens::{Token, TokenView};

verus! {

/// Whether a character has the Unicode property XID_Start, as the
/// `unicode-ident` crate tells it.
pub uninterp spec fn xid_start(c: char) -> bool;

/// Whether a character has the Unicode property XID_Continue, as the
/// `unicode-ident` crate tells it.
pub uninterp spec fn xid_continue(c: char) -> bool;

/// `unicode_ident::is_xid_start`: a lookup in the crate's tables, which
/// depends on the character alone.
#[verifier::external_body]
fn is_xid_start(c: char) -> (r: bool)
    ensures
        r == xid_start(c),
{
    unicode_ident::is_xid_start(c)
}

/// `unicode_ident::is_xid_continue`: a lookup in the crate's tables, which
/// depends on the character alone.
#[verifier::external_body]
fn is_xid_continue(c: char) -> (r: bool)
    ensures
        r == xid_continue(c),
{
    unicode_ident::is_xid_continue(c)
}

/// The kinds of character that tokens are made of runs of.
#[derive(Clone, Copy, Debug, PartialEq, Eq, Structural)]
pub enum CharClass {
    Digit,
    XidContinue,
    LineEnd,
    /// Anything but a line end.
    InLine,
}

pub open spec fn in_class(c: char, class: CharClass) -> bool {
    match class {
        CharClass::Digit => digit_value(c) is Some,
        CharClass::XidContinue => xid_continue(c),
        CharClass::LineEnd => c == '\n',
        CharClass::InLine => c != '\n',
    }
}

fn has_class(c: char, class: CharClass) -> (r: bool)
    ensures
        r == in_class(c, class),
{
    match class {
        CharClass::Digit => digit_of(c).is_some(),
        CharClass::XidContinue => is_xid_continue(c),
        CharClass::LineEnd => c == '\n',
        CharClass::InLine => c != '\n',
    }
}

/// How many characters of the class stand in a row from `pos` on.
pub open spec fn run_len(s: Seq<char>, pos: int, class: CharClass) -> int
    decreases s.len() - pos,
{
    if 0 <= pos < s.len() && in_class(s[pos], class) {
        1 + run_len(s, pos + 1, class)
    } else {
        0
    }
}

/// The end of the run of characters of the class that begins at `pos`.
fn run_end(chars: &Vec<char>, pos: usize, class: CharClass) -> (r: usize)
    requires
        pos <= chars.len(),
    ensures
        r == pos + run_len(chars@, pos as int, class),
        pos <= r <= chars.len(),
{
    let mut i: usize = pos;
    while i < chars.len() && has_class(chars[i], class)
        invariant
            pos <= i <= chars.len(),
            run_len(chars@, pos as int, class) == (i - pos) + run_len(chars@, i as int, class),
        decreases chars.len() - i,
    {
        i += 1;
    }
    i
}

/// The characters that may follow a backslash between quotes.
pub open spec fn is_escape(c: char) -> bool {
    c == 't' || c == 'u' || c == 'n' || c == '"'
}

/// Where the quote stands that closes a quoted text whose inside begins at
/// `pos`: the first quote that no backslash stands before. Between the
/// quotes a backslash must be followed by `t`, `u`, `n` or a quote.
pub open spec fn closing_quote(s: Seq<char>, pos: int) -> Option<int>
    decreases s.len() - pos,
{
    if pos < 0 || pos >= s.len() {
        None
    } else if s[pos] == '"' {
        Some(pos)
    } else if s[pos] == '\\' {
        if pos + 1 < s.len() && is_escape(s[pos + 1]) {
            closing_quote(s, pos + 2)
        } else {
            None
        }
    } else {
        closing_quote(s, pos + 1)
    }
}

fn find_closing_quote(chars: &Vec<char>, pos: usize) -> (r: Option<usize>)
    requires
        pos <= chars.len(),
    ensures
        match closing_quote(chars@, pos as int) {
            Some(e) => r == Some(e as usize) && pos <= e < chars.len(),
            None => r is None,
        },
{
    let mut i: usize = pos;
    while i < chars.len()
        invariant
            pos <= i <= chars.len(),
            closing_quote(chars@, pos as int) == closing_quote(chars@, i as int),
        decreases chars.len() - i,
    {
        let c = chars[i];
        if c == '"' {
            return Some(i);
        } else if c == '\\' {
            if i + 1 < chars.len() {
                let e = chars[i + 1];
                if e == 't' || e == 'u' || e == 'n' || e == '"' {
                    i += 2;
                } else {
                    return None;
                }
            } else {
                return None;
            }
        } else {
            i += 1;
        }
    }
    None
}

/// Blanks, tabs and form feeds.
pub open spec fn is_blank(c: char) -> bool {
    c == ' ' || c == '\t' || c == '\u{c}'
}

/// A token that was found at some place, and how many characters it takes.
pub struct Scan {
    pub token: Result<TokenView, ()>,
    pub len: int,
}

/// The token that a word is: a keyword, the float `inf`, or else the name
/// of a function.
pub open spec fn word_token(word: Seq<char>) -> TokenView {
    if word == "if"@ {
        TokenView::If
    } else if word == "else"@ {
        TokenView::Else
    } else if word == "return"@ {
        TokenView::Return
    } else if word == "break"@ {
        TokenView::Break
    } else if word == "loop"@ {
        TokenView::Loop
    } else if word == "for"@ {
        TokenView::For
    } else if word == "while"@ {
        TokenView::While
    } else if word == "fn"@ {
        TokenView::FnDef
    } else if word == "inf"@ {
        TokenView::Float(word)
    } else {
        TokenView::Function(word)
    }
}

fn token_of_word(word: String) -> (r: Token)
    ensures
        r@ == word_token(word@),
{
    if word == String::from_str("if") {
        Token::If
    } else if word == String::from_str("else") {
        Token::Else
    } else if word == String::from_str("return") {
        Token::Return
    } else if word == String::from_str("break") {
        Token::Break
    } else if word == String::from_str("loop") {
        Token::Loop
    } else if word == String::from_str("for") {
        Token::For
    } else if word == String::from_str("while") {
        Token::While
    } else if word == String::from_str("fn") {
        Token::FnDef
    } else if word == String::from_str("inf") {
        Token::Float(word)
    } else {
        Token::Function(word)
    }
}

/// The token of one sign, or of two where the second is `=`.
pub open spec fn sign_scan(c: char, next: Option<char>) -> Option<Scan> {
    let one = |t: TokenView| Some(Scan { token: Ok(t), len: 1 });
    let two = |t: TokenView| Some(Scan { token: Ok(t), len: 2 });
    if c == ';' {
        one(TokenView::Space)
    } else if c == '(' {
        one(TokenView::LeftParent)
    } else if c == ')' {
        one(TokenView::RightParent)
    } else if c == '{' {
        one(TokenView::LeftCurly)
    } else if c == '}' {
        one(TokenView::RightCurly)
    } else if c == '[' {
        one(TokenView::LeftSquare)
    } else if c == ']' {
        one(TokenView::RightSquare)
    } else if c == ',' {
        one(TokenView::Comma)
    } else if c == ':' {
        one(TokenView::Colon)
    } else if c == '.' {
        one(TokenView::Dot)
    } else if c == '+' {
        one(TokenView::Plus)
    } else if c == '-' {
        one(TokenView::Minus)
    } else if c == '*' {
        one(TokenView::Star)
    } else if c == '/' {
        one(TokenView::Slash)
    } else if c == '=' {
        if next == Some('=') {
            two(TokenView::Eq)
        } else {
            one(TokenView::Assignment)
        }
    } else if c == '!' {
        if next == Some('=') {
            two(TokenView::Neq)
        } else {
            Some(Scan { token: Err(()), len: 1 })
        }
    } else if c == '<' {
        if next == Some('=') {
            two(TokenView::Lte)
        } else {
            one(TokenView::Lt)
        }
    } else if c == '>' {
        if next == Some('=') {
            two(TokenView::Gte)
        } else {
            one(TokenView::Gt)
        }
    } else {
        None
    }
}

pub open spec fn scan_token_view(r: Option<(Result<Token, ()>, usize)>) -> Option<Scan> {
    match r {
        Some((Ok(t), n)) => Some(Scan { token: Ok(t@), len: n as int }),
        Some((Err(e), n)) => Some(Scan { token: Err(e), len: n as int }),
        None => None,
    }
}

fn scan_sign(c: char, next: Option<char>) -> (r: Option<(Result<Token, ()>, usize)>)
    ensures
        scan_token_view(r) == sign_scan(c, next),
{
    let followed = match next {
        Some('=') => true,
        _ => false,
    };
    if c == ';' {
        Some((Ok(Token::Space), 1))
    } else if c == '(' {
        Some((Ok(Token::LeftParent), 1))
    } else if c == ')' {
        Some((Ok(Token::RightParent), 1))
    } else if c == '{' {
        Some((Ok(Token::LeftCurly), 1))
    } else if c == '}' {
        Some((Ok(Token::RightCurly), 1))
    } else if c == '[' {
        Some((Ok(Token::LeftSquare), 1))
    } else if c == ']' {
        Some((Ok(Token::RightSquare), 1))
    } else if c == ',' {
        Some((Ok(Token::Comma), 1))
    } else if c == ':' {
        Some((Ok(Token::Colon), 1))
    } else if c == '.' {
        Some((Ok(Token::Dot), 1))
    } else if c == '+' {
        Some((Ok(Token::Plus), 1))
    } else if c == '-' {
        Some((Ok(Token::Minus), 1))
    } else if c == '*' {
        Some((Ok(Token::Star), 1))
    } else if c == '/' {
        Some((Ok(Token::Slash), 1))
    } else if c == '=' {
        if followed {
            Some((Ok(Token::Eq), 2))
        } else {
            Some((Ok(Token::Assignment), 1))
        }
    } else if c == '!' {
        if followed {
            Some((Ok(Token::Neq), 2))
        } else {
            Some((Err(()), 1))
        }
    } else if c == '<' {
        if followed {
            Some((Ok(Token::Lte), 2))
        } else {
            Some((Ok(Token::Lt), 1))
        }
    } else if c == '>' {
        if followed {
            Some((Ok(Token::Gte), 2))
        } else {
            Some((Ok(Token::Gt), 1))
        }
    } else {
        None
    }
}

/// The kind of literal that a letter before a quote begins.
pub open spec fn quoted_token(prefix: char, text: Seq<char>) -> Option<TokenView> {
    if prefix == '@' {
        Some(TokenView::Image(text))
    } else if prefix == 'k' {
        Some(TokenView::Key(text))
    } else if prefix == 'f' {
        Some(TokenView::File(text))
    } else if prefix == 's' {
        Some(TokenView::Tilemap(text))
    } else {
        None
    }
}

/// The character at a place, if there is one.
pub open spec fn char_at(s: Seq<char>, pos: int) -> Option<char> {
    if 0 <= pos < s.len() {
        Some(s[pos])
    } else {
        None
    }
}

/// A number at `pos`, where a digit stands: digits, a dot and digits are a
/// float, kept as written; digits alone are an integer, and an error where
/// they do not fit in `i32`.
pub open spec fn number_scan(s: Seq<char>, pos: int) -> Scan {
    let whole = run_len(s, pos, CharClass::Digit);
    let fraction = run_len(s, pos + whole + 1, CharClass::Digit);
    if char_at(s, pos + whole) == Some('.') && fraction > 0 {
        Scan {
            token: Ok(TokenView::Float(s.subrange(pos, pos + whole + 1 + fraction))),
            len: whole + 1 + fraction,
        }
    } else {
        match digits_value(s.subrange(0, pos + whole), pos, 0, false) {
            Ok(v) => Scan { token: Ok(TokenView::Integer(v as i32)), len: whole },
            Err(_) => Scan { token: Err(()), len: whole },
        }
    }
}

/// A quoted literal at `pos`, where a quote stands, or one of `@ k f s` and
/// a quote: the token holds what stands between the quotes. A literal with
/// a letter before it loses the quotes at the end of that.
pub open spec fn quoted_scan(s: Seq<char>, pos: int) -> Option<Scan> {
    if char_at(s, pos) == Some('"') {
        match closing_quote(s, pos + 1) {
            Some(e) => Some(
                Scan { token: Ok(TokenView::String(s.subrange(pos + 1, e))), len: e + 1 - pos },
            ),
            None => None,
        }
    } else if char_at(s, pos) is Some && quoted_token(s[pos], Seq::empty()) is Some && char_at(
        s,
        pos + 1,
    ) == Some('"') {
        match closing_quote(s, pos + 2) {
            Some(e) => Some(
                Scan {
                    token: Ok(
                        quoted_token(s[pos], without_trailing(s.subrange(pos + 2, e), '"'))->Some_0,
                    ),
                    len: e + 1 - pos,
                },
            ),
            None => None,
        }
    } else {
        None
    }
}

/// The token that begins at `pos`, where a character stands that is no
/// blank. The rules are tried in this order: a comment, line ends, a quoted
/// literal, a sign, a variable, a number, a word. Where none fits the
/// character is an error.
pub open spec fn scan(s: Seq<char>, pos: int) -> Scan {
    let c = s[pos];
    let fault = Scan { token: Err(()), len: 1 };
    if c == '#' {
        Scan { token: Ok(TokenView::Comment), len: 1 + run_len(s, pos + 1, CharClass::InLine) }
    } else if c == '\n' {
        Scan { token: Ok(TokenView::Newline), len: run_len(s, pos, CharClass::LineEnd) }
    } else if quoted_scan(s, pos) is Some {
        quoted_scan(s, pos)->Some_0
    } else if sign_scan(c, char_at(s, pos + 1)) is Some {
        sign_scan(c, char_at(s, pos + 1))->Some_0
    } else if c == '$' {
        let n = run_len(s, pos + 1, CharClass::XidContinue);
        if n > 0 {
            Scan { token: Ok(TokenView::Variable(s.subrange(pos + 1, pos + 1 + n))), len: 1 + n }
        } else {
            fault
        }
    } else if digit_value(c) is Some {
        number_scan(s, pos)
    } else if xid_start(c) {
        let n = run_len(s, pos + 1, CharClass::XidContinue);
        if n > 0 {
            Scan { token: Ok(word_token(s.subrange(pos, pos + 1 + n))), len: 1 + n }
        } else {
            fault
        }
    } else {
        fault
    }
}

fn scan_quoted(chars: &Vec<char>, pos: usize) -> (r: Option<(Result<Token, ()>, usize)>)
    requires
        pos < chars.len(),
    ensures
        scan_token_view(r) == quoted_scan(chars@, pos as int),
        r matches Some((_, n)) ==> 1 <= n && pos + n <= chars.len(),
{
    let c = chars[pos];
    if c == '"' {
        match find_closing_quote(chars, pos + 1) {
            Some(e) => Some((Ok(Token::String(string_from_chars(chars, pos + 1, e))), e + 1 - pos)),
            None => None,
        }
    } else if (c == '@' || c == 'k' || c == 'f' || c == 's') && pos + 1 < chars.len() && chars[pos
        + 1] == '"' {
        match find_closing_quote(chars, pos + 2) {
            Some(e) => {
                let text = trimmed_text(chars, pos + 2, e, '"');
                let token = if c == '@' {
                    Token::Image(text)
                } else if c == 'k' {
                    Token::Key(text)
                } else if c == 'f' {
                    Token::File(text)
                } else {
                    Token::Tilemap(text)
                };
                Some((Ok(token), e + 1 - pos))
            },
            None => None,
        }
    } else {
        None
    }
}

fn scan_number(chars: &Vec<char>, pos: usize) -> (r: (Result<Token, ()>, usize))
    requires
        pos < chars.len(),
        digit_value(chars@[pos as int]) is Some,
    ensures
        scan_token_view(Some(r)) == Some(number_scan(chars@, pos as int)),
        1 <= r.1,
        pos + r.1 <= chars.len(),
{
    let whole_end = run_end(chars, pos + 1, CharClass::Digit);
    if whole_end < chars.len() && chars[whole_end] == '.' {
        let fraction_end = run_end(chars, whole_end + 1, CharClass::Digit);
        if fraction_end > whole_end + 1 {
            return (
                Ok(Token::Float(string_from_chars(chars, pos, fraction_end))),
                fraction_end - pos,
            );
        }
    }
    match read_digits(chars, pos, whole_end, false) {
        Ok(v) => (Ok(Token::Integer(v)), whole_end - pos),
        Err(_) => (Err(()), whole_end - pos),
    }
}

/// The token that begins at `pos`, and how many characters it takes.
fn scan_token(chars: &Vec<char>, pos: usize) -> (r: (Result<Token, ()>, usize))
    requires
        pos < chars.len(),
    ensures
        scan_token_view(Some(r)) == Some(scan(chars@, pos as int)),
        1 <= r.1,
        pos + r.1 <= chars.len(),
{
    let c = chars[pos];
    if c == '#' {
        let end = run_end(chars, pos + 1, CharClass::InLine);
        return (Ok(Token::Comment), end - pos);
    }
    if c == '\n' {
        let end = run_end(chars, pos + 1, CharClass::LineEnd);
        return (Ok(Token::Newline), end - pos);
    }
    match scan_quoted(chars, pos) {
        Some(r) => {
            return r;
        },
        None => {},
    }
    let next = if pos + 1 < chars.len() {
        Some(chars[pos + 1])
    } else {
        None
    };
    match scan_sign(c, next) {
        Some(r) => {
            return r;
        },
        None => {},
    }
    if c == '$' {
        let end = run_end(chars, pos + 1, CharClass::XidContinue);
        if end > pos + 1 {
            return (Ok(Token::Variable(string_from_chars(chars, pos + 1, end))), end - pos);
        } else {
            return (Err(()), 1);
        }
    }
    if digit_of(c).is_some() {
        return scan_number(chars, pos);
    }
    if is_xid_start(c) {
        let end = run_end(chars, pos + 1, CharClass::XidContinue);
        if end > pos + 1 {
            return (Ok(token_of_word(string_from_chars(chars, pos, end))), end - pos);
        } else {
            return (Err(()), 1);
        }
    }
    (Err(()), 1)
}

/// One item that the lexer read: a token, or an error where the source
/// holds none, and the span of the item in the source, in bytes.
#[derive(Debug)]
pub struct Lexeme {
    pub token: Result<Token, ()>,
    pub span: Range<usize>,
}

pub struct LexemeView {
    pub token: Result<TokenView, ()>,
    pub span: Range<usize>,
}

impl View for Lexeme {
    type V = LexemeView;

    open spec fn view(&self) -> LexemeView {
        LexemeView {
            token: match self.token {
                Ok(t) => Ok(t@),
                Err(e) => Err(e),
            },
            span: self.span,
        }
    }
}

/// The views of a list of lexemes.
pub open spec fn lexemes_view(v: Seq<Lexeme>) -> Seq<LexemeView> {
    Seq::new(v.len(), |i: int| v[i]@)
}

/// The span in bytes of the characters `from..to` of a text.
pub open spec fn char_span(s: Seq<char>, from: int, to: int) -> Range<usize> {
    Range { start: byte_offset(s, from) as usize, end: byte_offset(s, to) as usize }
}

/// The lexemes of a text from `pos` on, after `found`.
pub open spec fn lex(s: Seq<char>, pos: int, found: Seq<LexemeView>) -> Seq<LexemeView>
    decreases s.len() - pos,
{
    if pos < 0 || pos >= s.len() {
        found
    } else if is_blank(s[pos]) {
        lex(s, pos + 1, found)
    } else {
        let here = scan(s, pos);
        if here.len < 1 || pos + here.len > s.len() {
            found
        } else {
            lex(
                s,
                pos + here.len,
                found.push(
                    LexemeView { token: here.token, span: char_span(s, pos, pos + here.len) },
                ),
            )
        }
    }
}

/// The lexemes of a text.
pub open spec fn lexemes_of(s: Seq<char>) -> Seq<LexemeView> {
    lex(s, 0, Seq::empty())
}

/// The byte offset behind the characters `from..to`, from the offset before
/// them.
fn offset_after(chars: &Vec<char>, from: usize, to: usize, offset: usize) -> (r: usize)
    requires
        from <= to <= chars.len(),
        offset == byte_offset(chars@, from as int),
        byte_offset(chars@, chars.len() as int) <= usize::MAX,
    ensures
        r == byte_offset(chars@, to as int),
{
    let mut i: usize = from;
    let mut at: usize = offset;
    while i < to
        invariant
            from <= i <= to <= chars.len(),
            at == byte_offset(chars@, i as int),
            byte_offset(chars@, chars.len() as int) <= usize::MAX,
        decreases to - i,
    {
        proof {
            lemma_byte_offset(chars@, i as int);
        }
        at = at + width_of(chars[i]);
        i += 1;
    }
    at
}

/// Reads a text into lexemes.
pub fn tokenize(source: &str) -> (r: Vec<Lexeme>)
    ensures
        lexemes_view(r@) == lexemes_of(source@),
{
    let chars = string_chars(source);
    let total = source.as_bytes().len();
    proof {
        if chars.len() > 0 {
            lemma_byte_offset(chars@, 0);
        } else {
            assert(chars@.subrange(0, 0) =~= chars@);
        }
        assert(source.spec_bytes() == vstd::utf8::encode_utf8(source@));
        assert(total == source.spec_bytes().len());
        assert(byte_offset(chars@, chars.len() as int) == total);
        assert(chars@.subrange(0, 0) =~= Seq::<char>::empty());
    }
    let mut out: Vec<Lexeme> = Vec::new();
    let mut pos: usize = 0;
    let mut offset: usize = 0;
    proof {
        assert(lexemes_view(out@) =~= Seq::<LexemeView>::empty());
    }
    while pos < chars.len()
        invariant
            pos <= chars.len(),
            chars@ == source@,
            offset == byte_offset(chars@, pos as int),
            byte_offset(chars@, chars.len() as int) <= usize::MAX,
            lexemes_of(source@) == lex(chars@, pos as int, lexemes_view(out@)),
        decreases chars.len() - pos,
    {
        let c = chars[pos];
        if c == ' ' || c == '\t' || c == '\u{c}' {
            offset = offset_after(&chars, pos, pos + 1, offset);
            pos += 1;
        } else {
            let (token, len) = scan_token(&chars, pos);
            let end = offset_after(&chars, pos, pos + len, offset);
            let ghost before = lexemes_view(out@);
            let lexeme = Lexeme { token: token, span: Range { start: offset, end: end } };
            let ghost added = lexeme@;
            out.push(lexeme);
            proof {
                assert(lexemes_view(out@) =~= before.push(added));
            }
            offset = end;
            pos = pos + len;
        }
    }
    out
}

} // verus!
