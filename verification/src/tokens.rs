//! The lexical vocabulary of the language.

use vstd::prelude::*;
use vstd::string::StringExecFns;
use crate::text::{int_text, int_to_string};

verus! {

/// One lexical item. Literal tokens carry their payload; a float literal is
/// kept as text until it is evaluated.
#[derive(Debug, PartialEq, Eq, Hash)]
pub enum Token {
    /// A `#` comment, up to the end of its line.
    Comment,
    /// One or more line feeds.
    Newline,
    /// A `;`, the visible statement separator.
    Space,
    If,
    Else,
    Return,
    Break,
    Loop,
    For,
    While,
    FnDef,
    /// `$name`; the payload is the name without the `$`.
    Variable(String),
    /// `@"..."`, an image literal.
    Image(String),
    /// `k"..."`, a key literal.
    Key(String),
    /// `f"..."`, a file literal.
    File(String),
    /// `s"..."`, a tile map literal.
    Tilemap(String),
    /// A bare identifier of two or more characters.
    Function(String),
    /// `"..."`; the payload is the text between the quotes, escapes kept as written.
    String(String),
    /// A decimal integer literal that fits in `i32`.
    Integer(i32),
    /// A float literal, as written.
    Float(String),
    LeftParent,
    RightParent,
    LeftCurly,
    RightCurly,
    LeftSquare,
    RightSquare,
    Comma,
    Colon,
    Dot,
    Plus,
    Minus,
    Star,
    Slash,
    Eq,
    Neq,
    Lt,
    Gt,
    Lte,
    Gte,
    Assignment,
}

/// The mathematical value of a [`Token`]: the same variants, text as `Seq<char>`.
pub enum TokenView {
    Comment,
    Newline,
    Space,
    If,
    Else,
    Return,
    Break,
    Loop,
    For,
    While,
    FnDef,
    Variable(Seq<char>),
    Image(Seq<char>),
    Key(Seq<char>),
    File(Seq<char>),
    Tilemap(Seq<char>),
    Function(Seq<char>),
    String(Seq<char>),
    Integer(i32),
    Float(Seq<char>),
    LeftParent,
    RightParent,
    LeftCurly,
    RightCurly,
    LeftSquare,
    RightSquare,
    Comma,
    Colon,
    Dot,
    Plus,
    Minus,
    Star,
    Slash,
    Eq,
    Neq,
    Lt,
    Gt,
    Lte,
    Gte,
    Assignment,
}

impl View for Token {
    type V = TokenView;

    open spec fn view(&self) -> TokenView {
        match self {
            Token::Comment => TokenView::Comment,
            Token::Newline => TokenView::Newline,
            Token::Space => TokenView::Space,
            Token::If => TokenView::If,
            Token::Else => TokenView::Else,
            Token::Return => TokenView::Return,
            Token::Break => TokenView::Break,
            Token::Loop => TokenView::Loop,
            Token::For => TokenView::For,
            Token::While => TokenView::While,
            Token::FnDef => TokenView::FnDef,
            Token::LeftParent => TokenView::LeftParent,
            Token::RightParent => TokenView::RightParent,
            Token::LeftCurly => TokenView::LeftCurly,
            Token::RightCurly => TokenView::RightCurly,
            Token::LeftSquare => TokenView::LeftSquare,
            Token::RightSquare => TokenView::RightSquare,
            Token::Comma => TokenView::Comma,
            Token::Colon => TokenView::Colon,
            Token::Dot => TokenView::Dot,
            Token::Plus => TokenView::Plus,
            Token::Minus => TokenView::Minus,
            Token::Star => TokenView::Star,
            Token::Slash => TokenView::Slash,
            Token::Eq => TokenView::Eq,
            Token::Neq => TokenView::Neq,
            Token::Lt => TokenView::Lt,
            Token::Gt => TokenView::Gt,
            Token::Lte => TokenView::Lte,
            Token::Gte => TokenView::Gte,
            Token::Assignment => TokenView::Assignment,
            Token::Variable(x) => TokenView::Variable(x@),
            Token::Image(x) => TokenView::Image(x@),
            Token::Key(x) => TokenView::Key(x@),
            Token::File(x) => TokenView::File(x@),
            Token::Tilemap(x) => TokenView::Tilemap(x@),
            Token::Function(x) => TokenView::Function(x@),
            Token::String(x) => TokenView::String(x@),
            Token::Float(x) => TokenView::Float(x@),
            Token::Integer(x) => TokenView::Integer(*x),
        }
    }
}

impl Clone for Token {
    fn clone(&self) -> (r: Self)
        ensures
            r@ == self@,
    {
        match self {
            Token::Comment => Token::Comment,
            Token::Newline => Token::Newline,
            Token::Space => Token::Space,
            Token::If => Token::If,
            Token::Else => Token::Else,
            Token::Return => Token::Return,
            Token::Break => Token::Break,
            Token::Loop => Token::Loop,
            Token::For => Token::For,
            Token::While => Token::While,
            Token::FnDef => Token::FnDef,
            Token::LeftParent => Token::LeftParent,
            Token::RightParent => Token::RightParent,
            Token::LeftCurly => Token::LeftCurly,
            Token::RightCurly => Token::RightCurly,
            Token::LeftSquare => Token::LeftSquare,
            Token::RightSquare => Token::RightSquare,
            Token::Comma => Token::Comma,
            Token::Colon => Token::Colon,
            Token::Dot => Token::Dot,
            Token::Plus => Token::Plus,
            Token::Minus => Token::Minus,
            Token::Star => Token::Star,
            Token::Slash => Token::Slash,
            Token::Eq => Token::Eq,
            Token::Neq => Token::Neq,
            Token::Lt => Token::Lt,
            Token::Gt => Token::Gt,
            Token::Lte => Token::Lte,
            Token::Gte => Token::Gte,
            Token::Assignment => Token::Assignment,
            Token::Variable(x) => Token::Variable(x.clone()),
            Token::Image(x) => Token::Image(x.clone()),
            Token::Key(x) => Token::Key(x.clone()),
            Token::File(x) => Token::File(x.clone()),
            Token::Tilemap(x) => Token::Tilemap(x.clone()),
            Token::Function(x) => Token::Function(x.clone()),
            Token::String(x) => Token::String(x.clone()),
            Token::Float(x) => Token::Float(x.clone()),
            Token::Integer(x) => Token::Integer(*x),
        }
    }
}

impl TokenView {
    /// The text that names the token in messages: the name of its kind, and
    /// its payload in brackets, a text between quotes.
    pub open spec fn text(self) -> Seq<char> {
        match self {
            TokenView::Comment => "Comment"@,
            TokenView::Newline => "Newline"@,
            TokenView::Space => "Space"@,
            TokenView::If => "If"@,
            TokenView::Else => "Else"@,
            TokenView::Return => "Return"@,
            TokenView::Break => "Break"@,
            TokenView::Loop => "Loop"@,
            TokenView::For => "For"@,
            TokenView::While => "While"@,
            TokenView::FnDef => "FnDef"@,
            TokenView::LeftParent => "LeftParent"@,
            TokenView::RightParent => "RightParent"@,
            TokenView::LeftCurly => "LeftCurly"@,
            TokenView::RightCurly => "RightCurly"@,
            TokenView::LeftSquare => "LeftSquare"@,
            TokenView::RightSquare => "RightSquare"@,
            TokenView::Comma => "Comma"@,
            TokenView::Colon => "Colon"@,
            TokenView::Dot => "Dot"@,
            TokenView::Plus => "Plus"@,
            TokenView::Minus => "Minus"@,
            TokenView::Star => "Star"@,
            TokenView::Slash => "Slash"@,
            TokenView::Eq => "Eq"@,
            TokenView::Neq => "Neq"@,
            TokenView::Lt => "Lt"@,
            TokenView::Gt => "Gt"@,
            TokenView::Lte => "Lte"@,
            TokenView::Gte => "Gte"@,
            TokenView::Assignment => "Assignment"@,
            TokenView::Variable(x) => "Variable"@ + "(\""@ + x + "\")"@,
            TokenView::Image(x) => "Image"@ + "(\""@ + x + "\")"@,
            TokenView::Key(x) => "Key"@ + "(\""@ + x + "\")"@,
            TokenView::File(x) => "File"@ + "(\""@ + x + "\")"@,
            TokenView::Tilemap(x) => "Tilemap"@ + "(\""@ + x + "\")"@,
            TokenView::Function(x) => "Function"@ + "(\""@ + x + "\")"@,
            TokenView::String(x) => "String"@ + "(\""@ + x + "\")"@,
            TokenView::Float(x) => "Float"@ + "(\""@ + x + "\")"@,
            TokenView::Integer(x) => "Integer("@ + int_text(x as int) + ")"@,
        }
    }

    /// Tokens that only lay a program out: they separate statements for a
    /// reader and mean nothing to the grammar.
    pub open spec fn is_layout(self) -> bool {
        self is Newline || self is Space || self is Comment
    }
}

/// A name and a text between quotes in brackets: `name("text")`.
pub fn quoted(name: &str, text: &String) -> (r: String)
    ensures
        r@ == name@ + "(\""@ + text@ + "\")"@,
{
    let mut out = name.to_owned();
    out.append("(\"");
    out.append(text.as_str());
    out.append("\")");
    out
}

impl Token {
    /// The text that names the token in messages.
    pub fn to_text(&self) -> (r: String)
        ensures
            r@ == self@.text(),
    {
        match self {
            Token::Comment => String::from_str("Comment"),
            Token::Newline => String::from_str("Newline"),
            Token::Space => String::from_str("Space"),
            Token::If => String::from_str("If"),
            Token::Else => String::from_str("Else"),
            Token::Return => String::from_str("Return"),
            Token::Break => String::from_str("Break"),
            Token::Loop => String::from_str("Loop"),
            Token::For => String::from_str("For"),
            Token::While => String::from_str("While"),
            Token::FnDef => String::from_str("FnDef"),
            Token::LeftParent => String::from_str("LeftParent"),
            Token::RightParent => String::from_str("RightParent"),
            Token::LeftCurly => String::from_str("LeftCurly"),
            Token::RightCurly => String::from_str("RightCurly"),
            Token::LeftSquare => String::from_str("LeftSquare"),
            Token::RightSquare => String::from_str("RightSquare"),
            Token::Comma => String::from_str("Comma"),
            Token::Colon => String::from_str("Colon"),
            Token::Dot => String::from_str("Dot"),
            Token::Plus => String::from_str("Plus"),
            Token::Minus => String::from_str("Minus"),
            Token::Star => String::from_str("Star"),
            Token::Slash => String::from_str("Slash"),
            Token::Eq => String::from_str("Eq"),
            Token::Neq => String::from_str("Neq"),
            Token::Lt => String::from_str("Lt"),
            Token::Gt => String::from_str("Gt"),
            Token::Lte => String::from_str("Lte"),
            Token::Gte => String::from_str("Gte"),
            Token::Assignment => String::from_str("Assignment"),
            Token::Variable(x) => quoted("Variable", x),
            Token::Image(x) => quoted("Image", x),
            Token::Key(x) => quoted("Key", x),
            Token::File(x) => quoted("File", x),
            Token::Tilemap(x) => quoted("Tilemap", x),
            Token::Function(x) => quoted("Function", x),
            Token::String(x) => quoted("String", x),
            Token::Float(x) => quoted("Float", x),
            Token::Integer(x) => {
                let mut out = String::from_str("Integer(");
                out.append(int_to_string(*x).as_str());
                out.append(")");
                out
            },
        }
    }

    /// Whether the token only lays the program out (a line end, a `;`, a comment).
    pub fn is_layout(&self) -> (r: bool)
        ensures
            r == self@.is_layout(),
    {
        match self {
            Token::Newline => true,
            Token::Space => true,
            Token::Comment => true,
            _ => false,
        }
    }
}

} // verus!
