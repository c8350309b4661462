//! What can go wrong while a program is read or run.

use vstd::prelude::*;
use vstd::string::StringExecFns;
use vstd::string::StringSliceAdditionalSpecFns;
use std::ops::Range;
use crate::ast::Spanned;
use crate::text::{
    byte_offset, lemma_byte_offset, nat_text, nat_to_string, string_chars, string_from_chars,
    width_of,
};
use crate::tokens::{Token, TokenView, quoted};

verus! {

/// A failure raised while a program runs, by the interpreter itself or by a
/// native function.
#[derive(Debug)]
pub enum RuntimeError {
    /// Wrong number of arguments: found, expected.
    InvalidArgCount(usize, usize),
    /// The argument at this position has the wrong type.
    InvalidArgType(usize),
    InvalidIdentifier(String),
    /// The value cannot be parsed to the target type (bad format, out of range).
    TypeParseError(String),
    /// Values of this type cannot be parsed to the target: value type, target.
    TypeParseUnsupported(String, String),
    TypeHashUnsupported,
    TypeError,
    InvalidBlock(String),
    NativeLibraryError(String),
    MethodCalledAsFunction,
    MissingParam(String),
}

pub enum RuntimeErrorView {
    InvalidArgCount(usize, usize),
    InvalidArgType(usize),
    InvalidIdentifier(Seq<char>),
    TypeParseError(Seq<char>),
    TypeParseUnsupported(Seq<char>, Seq<char>),
    TypeHashUnsupported,
    TypeError,
    InvalidBlock(Seq<char>),
    NativeLibraryError(Seq<char>),
    MethodCalledAsFunction,
    MissingParam(Seq<char>),
}

impl View for RuntimeError {
    type V = RuntimeErrorView;

    open spec fn view(&self) -> RuntimeErrorView {
        match self {
            RuntimeError::InvalidArgCount(a, b) => RuntimeErrorView::InvalidArgCount(*a, *b),
            RuntimeError::InvalidArgType(a) => RuntimeErrorView::InvalidArgType(*a),
            RuntimeError::InvalidIdentifier(s) => RuntimeErrorView::InvalidIdentifier(s@),
            RuntimeError::TypeParseError(s) => RuntimeErrorView::TypeParseError(s@),
            RuntimeError::TypeParseUnsupported(s, t) => RuntimeErrorView::TypeParseUnsupported(
                s@,
                t@,
            ),
            RuntimeError::TypeHashUnsupported => RuntimeErrorView::TypeHashUnsupported,
            RuntimeError::TypeError => RuntimeErrorView::TypeError,
            RuntimeError::InvalidBlock(s) => RuntimeErrorView::InvalidBlock(s@),
            RuntimeError::NativeLibraryError(s) => RuntimeErrorView::NativeLibraryError(s@),
            RuntimeError::MethodCalledAsFunction => RuntimeErrorView::MethodCalledAsFunction,
            RuntimeError::MissingParam(s) => RuntimeErrorView::MissingParam(s@),
        }
    }
}

impl Clone for RuntimeError {
    fn clone(&self) -> (r: Self)
        ensures
            r@ == self@,
    {
        match self {
            RuntimeError::InvalidArgCount(a, b) => RuntimeError::InvalidArgCount(*a, *b),
            RuntimeError::InvalidArgType(a) => RuntimeError::InvalidArgType(*a),
            RuntimeError::InvalidIdentifier(s) => RuntimeError::InvalidIdentifier(s.clone()),
            RuntimeError::TypeParseError(s) => RuntimeError::TypeParseError(s.clone()),
            RuntimeError::TypeParseUnsupported(s, t) => RuntimeError::TypeParseUnsupported(
                s.clone(),
                t.clone(),
            ),
            RuntimeError::TypeHashUnsupported => RuntimeError::TypeHashUnsupported,
            RuntimeError::TypeError => RuntimeError::TypeError,
            RuntimeError::InvalidBlock(s) => RuntimeError::InvalidBlock(s.clone()),
            RuntimeError::NativeLibraryError(s) => RuntimeError::NativeLibraryError(s.clone()),
            RuntimeError::MethodCalledAsFunction => RuntimeError::MethodCalledAsFunction,
            RuntimeError::MissingParam(s) => RuntimeError::MissingParam(s.clone()),
        }
    }
}

/// Any failure of the language: lexical, syntactic, or raised while running.
#[derive(Debug)]
pub enum Error {
    /// The source holds characters that form no token.
    InvalidToken,
    /// The grammar cannot go on at this token.
    UnexpectedToken(Token),
    SyntaxError(String),
    /// A call of something that is no function; holds the value's text.
    ThisCannotBeCalled(String),
    ThisIsNotAssignable,
    InvalidIterationCount,
    InvalidForStart,
    InvalidForEnd,
    InvalidForStep,
    RuntimeError(RuntimeError),
    TypeError(String),
    /// The run was stopped from outside. This is no fault of the program.
    Interrupted,
}

pub enum ErrorView {
    InvalidToken,
    UnexpectedToken(TokenView),
    SyntaxError(Seq<char>),
    ThisCannotBeCalled(Seq<char>),
    ThisIsNotAssignable,
    InvalidIterationCount,
    InvalidForStart,
    InvalidForEnd,
    InvalidForStep,
    RuntimeError(RuntimeErrorView),
    TypeError(Seq<char>),
    Interrupted,
}

impl View for Error {
    type V = ErrorView;

    open spec fn view(&self) -> ErrorView {
        match self {
            Error::InvalidToken => ErrorView::InvalidToken,
            Error::UnexpectedToken(t) => ErrorView::UnexpectedToken(t@),
            Error::SyntaxError(s) => ErrorView::SyntaxError(s@),
            Error::ThisCannotBeCalled(s) => ErrorView::ThisCannotBeCalled(s@),
            Error::ThisIsNotAssignable => ErrorView::ThisIsNotAssignable,
            Error::InvalidIterationCount => ErrorView::InvalidIterationCount,
            Error::InvalidForStart => ErrorView::InvalidForStart,
            Error::InvalidForEnd => ErrorView::InvalidForEnd,
            Error::InvalidForStep => ErrorView::InvalidForStep,
            Error::RuntimeError(e) => ErrorView::RuntimeError(e@),
            Error::TypeError(s) => ErrorView::TypeError(s@),
            Error::Interrupted => ErrorView::Interrupted,
        }
    }
}

impl Clone for Error {
    fn clone(&self) -> (r: Self)
        ensures
            r@ == self@,
    {
        match self {
            Error::InvalidToken => Error::InvalidToken,
            Error::UnexpectedToken(t) => Error::UnexpectedToken(t.clone()),
            Error::SyntaxError(s) => Error::SyntaxError(s.clone()),
            Error::ThisCannotBeCalled(s) => Error::ThisCannotBeCalled(s.clone()),
            Error::ThisIsNotAssignable => Error::ThisIsNotAssignable,
            Error::InvalidIterationCount => Error::InvalidIterationCount,
            Error::InvalidForStart => Error::InvalidForStart,
            Error::InvalidForEnd => Error::InvalidForEnd,
            Error::InvalidForStep => Error::InvalidForStep,
            Error::RuntimeError(e) => Error::RuntimeError(e.clone()),
            Error::TypeError(s) => Error::TypeError(s.clone()),
            Error::Interrupted => Error::Interrupted,
        }
    }
}

/// A name and what it holds, in brackets: `name(inner)`.
pub open spec fn wrapped(name: Seq<char>, inner: Seq<char>) -> Seq<char> {
    name + "("@ + inner + ")"@
}

fn wrap(name: &str, inner: &str) -> (r: String)
    ensures
        r@ == wrapped(name@, inner@),
{
    let mut out = name.to_owned();
    out.append("(");
    out.append(inner);
    out.append(")");
    out
}

impl RuntimeErrorView {
    /// The text of the error: the name of its kind, and what it holds in
    /// brackets, a text between quotes.
    pub open spec fn text(self) -> Seq<char> {
        match self {
            RuntimeErrorView::InvalidArgCount(a, b) => wrapped(
                "InvalidArgCount"@,
                nat_text(a as nat) + ", "@ + nat_text(b as nat),
            ),
            RuntimeErrorView::InvalidArgType(a) => wrapped("InvalidArgType"@, nat_text(a as nat)),
            RuntimeErrorView::InvalidIdentifier(s) => "InvalidIdentifier"@ + "(\""@ + s + "\")"@,
            RuntimeErrorView::TypeParseError(s) => "TypeParseError"@ + "(\""@ + s + "\")"@,
            RuntimeErrorView::TypeParseUnsupported(s, t) => wrapped(
                "TypeParseUnsupported"@,
                "\""@ + s + "\", \""@ + t + "\""@,
            ),
            RuntimeErrorView::TypeHashUnsupported => "TypeHashUnsupported"@,
            RuntimeErrorView::TypeError => "TypeError"@,
            RuntimeErrorView::InvalidBlock(s) => "InvalidBlock"@ + "(\""@ + s + "\")"@,
            RuntimeErrorView::NativeLibraryError(s) => "NativeLibraryError"@ + "(\""@ + s + "\")"@,
            RuntimeErrorView::MethodCalledAsFunction => "MethodCalledAsFunction"@,
            RuntimeErrorView::MissingParam(s) => "MissingParam"@ + "(\""@ + s + "\")"@,
        }
    }
}

impl RuntimeError {
    /// The text of the error.
    pub fn to_text(&self) -> (r: String)
        ensures
            r@ == self@.text(),
    {
        match self {
            RuntimeError::InvalidArgCount(a, b) => {
                let mut inner = nat_to_string(*a as u128);
                inner.append(", ");
                inner.append(nat_to_string(*b as u128).as_str());
                wrap("InvalidArgCount", inner.as_str())
            },
            RuntimeError::InvalidArgType(a) => wrap(
                "InvalidArgType",
                nat_to_string(*a as u128).as_str(),
            ),
            RuntimeError::InvalidIdentifier(s) => quoted("InvalidIdentifier", s),
            RuntimeError::TypeParseError(s) => quoted("TypeParseError", s),
            RuntimeError::TypeParseUnsupported(s, t) => {
                let mut inner = String::from_str("\"");
                inner.append(s.as_str());
                inner.append("\", \"");
                inner.append(t.as_str());
                inner.append("\"");
                wrap("TypeParseUnsupported", inner.as_str())
            },
            RuntimeError::TypeHashUnsupported => String::from_str("TypeHashUnsupported"),
            RuntimeError::TypeError => String::from_str("TypeError"),
            RuntimeError::InvalidBlock(s) => quoted("InvalidBlock", s),
            RuntimeError::NativeLibraryError(s) => quoted("NativeLibraryError", s),
            RuntimeError::MethodCalledAsFunction => String::from_str("MethodCalledAsFunction"),
            RuntimeError::MissingParam(s) => quoted("MissingParam", s),
        }
    }
}

impl ErrorView {
    /// The text of the error: the name of its kind, and what it holds in
    /// brackets, a text between quotes.
    pub open spec fn text(self) -> Seq<char> {
        match self {
            ErrorView::InvalidToken => "InvalidToken"@,
            ErrorView::UnexpectedToken(t) => wrapped("UnexpectedToken"@, t.text()),
            ErrorView::SyntaxError(s) => "SyntaxError"@ + "(\""@ + s + "\")"@,
            ErrorView::ThisCannotBeCalled(s) => "ThisCannotBeCalled"@ + "(\""@ + s + "\")"@,
            ErrorView::ThisIsNotAssignable => "ThisIsNotAssignable"@,
            ErrorView::InvalidIterationCount => "InvalidIterationCount"@,
            ErrorView::InvalidForStart => "InvalidForStart"@,
            ErrorView::InvalidForEnd => "InvalidForEnd"@,
            ErrorView::InvalidForStep => "InvalidForStep"@,
            ErrorView::RuntimeError(e) => wrapped("RuntimeError"@, e.text()),
            ErrorView::TypeError(s) => "TypeError"@ + "(\""@ + s + "\")"@,
            ErrorView::Interrupted => "Interrupted"@,
        }
    }
}

impl Error {
    /// The text of the error.
    pub fn to_text(&self) -> (r: String)
        ensures
            r@ == self@.text(),
    {
        match self {
            Error::InvalidToken => String::from_str("InvalidToken"),
            Error::UnexpectedToken(t) => wrap("UnexpectedToken", t.to_text().as_str()),
            Error::SyntaxError(s) => quoted("SyntaxError", s),
            Error::ThisCannotBeCalled(s) => quoted("ThisCannotBeCalled", s),
            Error::ThisIsNotAssignable => String::from_str("ThisIsNotAssignable"),
            Error::InvalidIterationCount => String::from_str("InvalidIterationCount"),
            Error::InvalidForStart => String::from_str("InvalidForStart"),
            Error::InvalidForEnd => String::from_str("InvalidForEnd"),
            Error::InvalidForStep => String::from_str("InvalidForStep"),
            Error::RuntimeError(e) => wrap("RuntimeError", e.to_text().as_str()),
            Error::TypeError(s) => quoted("TypeError", s),
            Error::Interrupted => String::from_str("Interrupted"),
        }
    }
}

/// The index of the character of a text that a byte offset points at: the
/// first character that begins at the offset or behind it, and the length
/// of the text where there is none.
pub open spec fn char_index(s: Seq<char>, offset: int, from: int) -> int
    decreases s.len() - from,
{
    if from < 0 || from >= s.len() || byte_offset(s, from) >= offset {
        from
    } else {
        char_index(s, offset, from + 1)
    }
}

/// Where the line begins that holds the character at `at`: behind the last
/// line feed before `at`.
pub open spec fn line_start(s: Seq<char>, at: int) -> int
    decreases at,
{
    if at <= 0 || at > s.len() {
        0
    } else if s[at - 1] == '\n' {
        at
    } else {
        line_start(s, at - 1)
    }
}

/// Where the line ends that holds the character at `at`: at the first line
/// feed at `at` or behind it.
pub open spec fn line_end(s: Seq<char>, at: int) -> int
    decreases s.len() - at,
{
    if at < 0 || at >= s.len() || s[at] == '\n' {
        at
    } else {
        line_end(s, at + 1)
    }
}

/// How many line feeds stand before the character at `at`.
pub open spec fn lines_before(s: Seq<char>, at: int) -> nat
    decreases at,
{
    if at <= 0 || at > s.len() {
        0
    } else if s[at - 1] == '\n' {
        lines_before(s, at - 1) + 1
    } else {
        lines_before(s, at - 1)
    }
}

/// The message for an error at a span of a source: the number of the line
/// where the span begins, the lines that the span touches with the span
/// itself on a red ground, and the error's text in yellow.
pub open spec fn message_of(error: ErrorView, span: Range<usize>, source: Seq<char>) -> Seq<char> {
    let from = char_index(source, span.start as int, 0);
    let to = if char_index(source, span.end as int, 0) < from {
        from
    } else {
        char_index(source, span.end as int, 0)
    };
    let first = line_start(source, from);
    let last = line_end(source, to);
    "An \x1b[31merror\x1b[0m occurred on line "@ + nat_text(lines_before(source, from) + 1) + ":\n"@
        + source.subrange(first, from) + "\x1b[41m"@ + source.subrange(from, to) + "\x1b[0m"@
        + source.subrange(to, last) + "\n\x1b[33m"@ + error.text() + "\x1b[0m"@
}

fn find_char_index(chars: &Vec<char>, offset: usize) -> (r: usize)
    requires
        byte_offset(chars@, chars.len() as int) <= usize::MAX,
    ensures
        r == char_index(chars@, offset as int, 0),
        r <= chars.len(),
{
    let mut i: usize = 0;
    let mut at: usize = 0;
    proof {
        assert(chars@.subrange(0, 0) =~= Seq::<char>::empty());
    }
    while i < chars.len() && at < offset
        invariant
            i <= chars.len(),
            at == byte_offset(chars@, i as int),
            byte_offset(chars@, chars.len() as int) <= usize::MAX,
            char_index(chars@, offset as int, 0) == char_index(chars@, offset as int, i as int),
        decreases chars.len() - i,
    {
        proof {
            lemma_byte_offset(chars@, i as int);
        }
        at = at + width_of(chars[i]);
        i += 1;
    }
    i
}

fn find_line_start(chars: &Vec<char>, at: usize) -> (r: usize)
    requires
        at <= chars.len(),
    ensures
        r == line_start(chars@, at as int),
        r <= at,
{
    let mut i: usize = at;
    while i > 0 && chars[i - 1] != '\n'
        invariant
            i <= at <= chars.len(),
            line_start(chars@, at as int) == line_start(chars@, i as int),
        decreases i,
    {
        i -= 1;
    }
    i
}

fn find_line_end(chars: &Vec<char>, at: usize) -> (r: usize)
    requires
        at <= chars.len(),
    ensures
        r == line_end(chars@, at as int),
        at <= r <= chars.len(),
{
    let mut i: usize = at;
    while i < chars.len() && chars[i] != '\n'
        invariant
            at <= i <= chars.len(),
            line_end(chars@, at as int) == line_end(chars@, i as int),
        decreases chars.len() - i,
    {
        i += 1;
    }
    i
}

fn count_lines_before(chars: &Vec<char>, at: usize) -> (r: usize)
    requires
        at <= chars.len(),
    ensures
        r == lines_before(chars@, at as int),
        r <= at,
{
    let mut i: usize = 0;
    let mut n: usize = 0;
    while i < at
        invariant
            i <= at <= chars.len(),
            n == lines_before(chars@, i as int),
            n <= i,
        decreases at - i,
    {
        if chars[i] == '\n' {
            n += 1;
        }
        i += 1;
    }
    n
}

impl Spanned<Error> {
    /// The message that shows the error in its source.
    pub fn build_message(&self, source: &str) -> (r: String)
        ensures
            r@ == message_of(self.item@, self.span, source@),
    {
        let chars = string_chars(source);
        let total = source.as_bytes().len();
        proof {
            if chars.len() > 0 {
                lemma_byte_offset(chars@, 0);
            } else {
                assert(chars@.subrange(0, 0) =~= chars@);
            }
            assert(source.spec_bytes() == vstd::utf8::encode_utf8(source@));
        }
        let from = find_char_index(&chars, self.span.start);
        let reached = find_char_index(&chars, self.span.end);
        let to = if reached < from {
            from
        } else {
            reached
        };
        let first = find_line_start(&chars, from);
        let last = find_line_end(&chars, to);
        let line = count_lines_before(&chars, from);
        let mut out = String::from_str("An \x1b[31merror\x1b[0m occurred on line ");
        out.append(nat_to_string(line as u128 + 1).as_str());
        out.append(":\n");
        out.append(string_from_chars(&chars, first, from).as_str());
        out.append("\x1b[41m");
        out.append(string_from_chars(&chars, from, to).as_str());
        out.append("\x1b[0m");
        out.append(string_from_chars(&chars, to, last).as_str());
        out.append("\n\x1b[33m");
        out.append(self.item.to_text().as_str());
        out.append("\x1b[0m");
        out
    }
}

} // verus!
