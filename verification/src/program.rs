//! Programs as an editor of blocks keeps them, and the state of a run as a
//! host shows it.

use vstd::prelude::*;
use crate::ast::Spanned;
use crate::error::Error;
use crate::tokens::{Token, TokenView};
use crate::value::Value;

verus! {

/// One block of a program: a token of the language, or a comment.
#[derive(Debug)]
pub enum Command {
    Comment(String),
    Token(Token),
}

pub enum CommandView {
    Comment(Seq<char>),
    Token(TokenView),
}

impl View for Command {
    type V = CommandView;

    open spec fn view(&self) -> CommandView {
        match self {
            Command::Comment(s) => CommandView::Comment(s@),
            Command::Token(t) => CommandView::Token(t@),
        }
    }
}

impl Clone for Command {
    fn clone(&self) -> (r: Self)
        ensures
            r@ == self@,
    {
        match self {
            Command::Comment(s) => Command::Comment(s.clone()),
            Command::Token(t) => Command::Token(t.clone()),
        }
    }
}

/// A range of blocks of a program, from `start` to `end`, both given as
/// column and row.
#[derive(Clone, Copy, Debug, PartialEq, Eq)]
pub struct CommandRange {
    pub start: (usize, usize),
    pub end: (usize, usize),
}

impl CommandRange {
    /// The range that holds the one block at a column and row.
    pub fn single_icon(col: usize, row: usize) -> (r: Self)
        ensures
            r.start == (col, row),
            r.end == (col, row),
    {
        Self { start: (col, row), end: (col, row) }
    }
}

/// The tokens of a row, in order, without its comments.
pub open spec fn row_tokens(row: Seq<CommandView>) -> Seq<TokenView>
    decreases row.len(),
{
    if row.len() == 0 {
        Seq::empty()
    } else {
        match row.last() {
            CommandView::Token(t) => row_tokens(row.drop_last()).push(t),
            CommandView::Comment(_) => row_tokens(row.drop_last()),
        }
    }
}

/// The tokens of a program, row after row, without its comments.
pub open spec fn program_tokens(rows: Seq<Seq<CommandView>>) -> Seq<TokenView>
    decreases rows.len(),
{
    if rows.len() == 0 {
        Seq::empty()
    } else {
        program_tokens(rows.drop_last()) + row_tokens(rows.last())
    }
}

/// The views of a row's blocks.
pub open spec fn row_view(row: Seq<Command>) -> Seq<CommandView> {
    Seq::new(row.len(), |i: int| row[i]@)
}

/// The views of a program's rows.
pub open spec fn rows_view(rows: Seq<Vec<Command>>) -> Seq<Seq<CommandView>> {
    Seq::new(rows.len(), |i: int| row_view(rows[i]@))
}

/// The views of a list of tokens.
pub open spec fn tokens_view(tokens: Seq<Token>) -> Seq<TokenView> {
    Seq::new(tokens.len(), |i: int| tokens[i]@)
}

/// The tokens of a program of blocks, ready for the parser: every row in
/// order, comments left out.
pub fn flatten_program(program: &Vec<Vec<Command>>) -> (r: Vec<Token>)
    ensures
        tokens_view(r@) == program_tokens(rows_view(program@)),
{
    let ghost rows = rows_view(program@);
    let mut out: Vec<Token> = Vec::new();
    let mut y: usize = 0;
    proof {
        assert(rows.subrange(0, 0) =~= Seq::<Seq<CommandView>>::empty());
        assert(tokens_view(out@) =~= Seq::<TokenView>::empty());
    }
    while y < program.len()
        invariant
            y <= program.len(),
            rows == rows_view(program@),
            tokens_view(out@) == program_tokens(rows.subrange(0, y as int)),
        decreases program.len() - y,
    {
        let row = &program[y];
        let ghost row_v = row_view(row@);
        let ghost base = tokens_view(out@);
        let mut x: usize = 0;
        proof {
            assert(row_v.subrange(0, 0) =~= Seq::<CommandView>::empty());
            assert(base + Seq::<TokenView>::empty() =~= base);
        }
        while x < row.len()
            invariant
                x <= row.len(),
                row_v == row_view(row@),
                tokens_view(out@) == base + row_tokens(row_v.subrange(0, x as int)),
            decreases row.len() - x,
        {
            proof {
                assert(row_v.subrange(0, x + 1).drop_last() =~= row_v.subrange(0, x as int));
                assert(row_v.subrange(0, x + 1).last() == row[x as int]@);
            }
            match &row[x] {
                Command::Token(t) => {
                    let ghost before = tokens_view(out@);
                    out.push(t.clone());
                    proof {
                        assert(tokens_view(out@) =~= before.push(t@));
                        assert(base + row_tokens(row_v.subrange(0, x as int)).push(t@) =~= (base
                            + row_tokens(row_v.subrange(0, x as int))).push(t@));
                    }
                },
                Command::Comment(_) => {},
            }
            x += 1;
        }
        proof {
            assert(row_v.subrange(0, row.len() as int) =~= row_v);
            assert(rows.subrange(0, y + 1).drop_last() =~= rows.subrange(0, y as int));
            assert(rows.subrange(0, y + 1).last() == row_v);
        }
        y += 1;
    }
    proof {
        assert(rows.subrange(0, program.len() as int) =~= rows);
    }
    out
}

/// What a host tells a native function that waits for it: that the world
/// was drawn once more, or that the run was cancelled.
#[derive(Clone, Copy, Debug, PartialEq, Eq, Structural)]
pub enum WorldSyncState {
    Update,
    Cancelled,
}

impl WorldSyncState {
    /// Whether a native function that waits must give up waiting.
    pub fn ends_wait(&self) -> (r: bool)
        ensures
            r == (*self is Cancelled),
    {
        match self {
            WorldSyncState::Cancelled => true,
            WorldSyncState::Update => false,
        }
    }
}

/// The state of a run, as a host shows it.
#[derive(Debug)]
pub enum ScriptState {
    Running,
    Finished,
    Error(Spanned<Error>),
}

impl ScriptState {
    /// The state that a run ends in: finished where it gave a value, and
    /// the error where it failed.
    pub fn from_result(result: Result<Value, Spanned<Error>>) -> (r: Self)
        ensures
            result is Ok ==> r is Finished,
            result matches Err(e) ==> r == ScriptState::Error(e),
    {
        match result {
            Ok(_) => ScriptState::Finished,
            Err(err) => ScriptState::Error(err),
        }
    }

    /// Whether the run failed through a fault of the program. A run that
    /// was stopped from outside did not.
    pub fn is_failure(&self) -> (r: bool)
        ensures
            r == (self matches ScriptState::Error(e) && !(e.item@ is Interrupted)),
    {
        match self {
            ScriptState::Error(e) => match &e.item {
                Error::Interrupted => false,
                _ => true,
            },
            _ => false,
        }
    }
}

} // verus!
