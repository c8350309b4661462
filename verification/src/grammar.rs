//! The grammar of the language, as a function from a list of tokens to a
//! syntax tree. The spans of the tree count tokens: a node that was read
//! from the tokens `i..j` has the span `i..j`.
//!
//! Where the grammar offers alternatives, the first that fits is taken.
//! From the strongest binding to the weakest: literals and bracketed
//! expressions, calls, negation, `*` and `/`, `+` and `-`, comparisons,
//! blocks.
//!
//! Every rule also tells how far it came: the furthest position at which
//! it, or an alternative that it gave up, looked for something that was not
//! there. Where a program cannot be read, that is where its error is.

use vstd::prelude::*;
use std::ops::Range;
use crate::ast::{ExprView, Spanned};
use crate::tokens::TokenView;

verus! {

/// What a rule gives: the node that was read and the position behind it,
/// if the rule could read one, and how far the rule came.
pub struct Step {
    pub out: Option<(Spanned<ExprView>, int)>,
    pub far: int,
}

/// A rule that read a node.
pub open spec fn hit(n: Spanned<ExprView>, next: int, far: int) -> Step {
    Step { out: Some((n, next)), far: far }
}

/// A rule that could not read what it was asked for.
pub open spec fn miss(far: int) -> Step {
    Step { out: None, far: far }
}

/// A node over the tokens `from..to`.
pub open spec fn node(item: ExprView, from: int, to: int) -> Spanned<ExprView> {
    Spanned { item: item, span: Range { start: from as usize, end: to as usize } }
}

pub open spec fn tok_at(toks: Seq<TokenView>, pos: int) -> Option<TokenView> {
    if 0 <= pos < toks.len() {
        Some(toks[pos])
    } else {
        None
    }
}

/// The greater of two positions.
pub open spec fn further(a: int, b: int) -> int {
    if a >= b {
        a
    } else {
        b
    }
}

/// The first of two alternatives that was read. The second is tried only
/// where the first fails, and then both tell how far the rule came.
pub open spec fn either(a: Step, b: Step) -> Step {
    match a.out {
        Some(_) => a,
        None => Step { out: b.out, far: further(a.far, b.far) },
    }
}

/// The result of a rule that began at `pos`, if it went forward and stayed
/// within the tokens.
pub open spec fn advance(r: Step, pos: int, len: nat) -> Step {
    match r.out {
        Some((n, next)) => if pos < next <= len {
            r
        } else {
            miss(r.far)
        },
        None => r,
    }
}

/// An integer, a text, a float, an image or a key.
pub open spec fn p_literal(toks: Seq<TokenView>, pos: int) -> Step {
    match tok_at(toks, pos) {
        Some(TokenView::Integer(x)) => hit(node(ExprView::Int(x), pos, pos + 1), pos + 1, pos),
        Some(TokenView::String(x)) => hit(node(ExprView::String(x), pos, pos + 1), pos + 1, pos),
        Some(TokenView::Float(x)) => hit(node(ExprView::Float(x), pos, pos + 1), pos + 1, pos),
        Some(TokenView::Image(x)) => hit(node(ExprView::Image(x), pos, pos + 1), pos + 1, pos),
        Some(TokenView::Key(x)) => hit(node(ExprView::Key(x), pos, pos + 1), pos + 1, pos),
        _ => miss(pos),
    }
}

/// The name at `pos`, where it is of the wanted kind: a function's name, or
/// a variable's.
pub open spec fn name_at(toks: Seq<TokenView>, pos: int, function: bool) -> Option<Seq<char>> {
    match tok_at(toks, pos) {
        Some(TokenView::Function(f)) => if function {
            Some(f)
        } else {
            None
        },
        Some(TokenView::Variable(v)) => if function {
            None
        } else {
            Some(v)
        },
        _ => None,
    }
}

/// A name of the wanted kind, or such a name reached through a variable:
/// `$parent.name`.
pub open spec fn p_named(toks: Seq<TokenView>, pos: int, function: bool) -> Step {
    if name_at(toks, pos, false) is Some && tok_at(toks, pos + 1) == Some(TokenView::Dot)
        && name_at(toks, pos + 2, function) is Some {
        let parent = node(
            ExprView::Variable { parent: None, name: name_at(toks, pos, false)->Some_0 },
            pos,
            pos + 1,
        );
        hit(
            node(
                ExprView::Variable {
                    parent: Some(Box::new(parent)),
                    name: name_at(toks, pos + 2, function)->Some_0,
                },
                pos,
                pos + 3,
            ),
            pos + 3,
            pos,
        )
    } else {
        match name_at(toks, pos, function) {
            Some(name) => hit(
                node(ExprView::Variable { parent: None, name: name }, pos, pos + 1),
                pos + 1,
                pos,
            ),
            None => miss(pos),
        }
    }
}

/// A variable: `$name` or `$parent.$name`.
pub open spec fn p_var(toks: Seq<TokenView>, pos: int) -> Step {
    p_named(toks, pos, false)
}

/// The name of a function: `name` or `$parent.name`.
pub open spec fn p_func(toks: Seq<TokenView>, pos: int) -> Step {
    p_named(toks, pos, true)
}

/// A call without brackets: a function's name and one literal or variable,
/// or the name alone.
pub open spec fn p_shortcall(toks: Seq<TokenView>, pos: int) -> Step {
    match p_func(toks, pos).out {
        Some((callee, next)) => {
            let arg = either(p_literal(toks, next), p_var(toks, next));
            match arg.out {
                Some((a, end)) => hit(
                    node(ExprView::Call { expr: Box::new(callee), args: seq![a] }, pos, end),
                    end,
                    arg.far,
                ),
                None => hit(
                    node(ExprView::Call { expr: Box::new(callee), args: Seq::empty() }, pos, next),
                    next,
                    arg.far,
                ),
            }
        },
        None => miss(pos),
    }
}

/// The parameters of a function after the first: each a comma and a
/// variable's name.
pub open spec fn p_params_rest(toks: Seq<TokenView>, pos: int, found: Seq<Seq<char>>) -> (
    Seq<Seq<char>>,
    int,
)
    decreases toks.len() - pos,
{
    if 0 <= pos && tok_at(toks, pos) == Some(TokenView::Comma) && name_at(toks, pos + 1, false)
        is Some {
        p_params_rest(toks, pos + 2, found.push(name_at(toks, pos + 1, false)->Some_0))
    } else {
        (found, pos)
    }
}

/// The parameters of a function: names of variables with commas between
/// them, or nothing.
pub open spec fn p_params(toks: Seq<TokenView>, pos: int) -> (Seq<Seq<char>>, int) {
    match name_at(toks, pos, false) {
        Some(first) => p_params_rest(toks, pos + 1, seq![first]),
        None => (Seq::empty(), pos),
    }
}

/// The binary operator that a token stands for at the given level: 0 for
/// `*` and `/`, 1 for `+` and `-`, 2 for the comparisons.
pub open spec fn operator_at(t: TokenView, level: int) -> Option<BinaryOp> {
    if level == 0 {
        match t {
            TokenView::Star => Some(BinaryOp::Multiply),
            TokenView::Slash => Some(BinaryOp::Division),
            _ => None,
        }
    } else if level == 1 {
        match t {
            TokenView::Plus => Some(BinaryOp::Addition),
            TokenView::Minus => Some(BinaryOp::Subtraction),
            _ => None,
        }
    } else {
        match t {
            TokenView::Eq => Some(BinaryOp::Eq),
            TokenView::Neq => Some(BinaryOp::Neq),
            TokenView::Lt => Some(BinaryOp::Lt),
            TokenView::Gt => Some(BinaryOp::Gt),
            TokenView::Lte => Some(BinaryOp::Lte),
            TokenView::Gte => Some(BinaryOp::Gte),
            _ => None,
        }
    }
}

/// The binary operators of the grammar.
#[derive(Clone, Copy, Debug, PartialEq, Eq, Structural)]
pub enum BinaryOp {
    Multiply,
    Division,
    Addition,
    Subtraction,
    Eq,
    Neq,
    Lt,
    Gt,
    Lte,
    Gte,
}

/// The node of a binary operator on two operands. It spans from the start
/// of the left operand to the end of the right one.
pub open spec fn binary(op: BinaryOp, a: Spanned<ExprView>, b: Spanned<ExprView>) -> Spanned<
    ExprView,
> {
    let item = match op {
        BinaryOp::Multiply => ExprView::Multiply(Box::new(a), Box::new(b)),
        BinaryOp::Division => ExprView::Division(Box::new(a), Box::new(b)),
        BinaryOp::Addition => ExprView::Addition(Box::new(a), Box::new(b)),
        BinaryOp::Subtraction => ExprView::Subtraction(Box::new(a), Box::new(b)),
        BinaryOp::Eq => ExprView::Eq(Box::new(a), Box::new(b)),
        BinaryOp::Neq => ExprView::Neq(Box::new(a), Box::new(b)),
        BinaryOp::Lt => ExprView::Lt(Box::new(a), Box::new(b)),
        BinaryOp::Gt => ExprView::Gt(Box::new(a), Box::new(b)),
        BinaryOp::Lte => ExprView::Lte(Box::new(a), Box::new(b)),
        BinaryOp::Gte => ExprView::Gte(Box::new(a), Box::new(b)),
    };
    Spanned { item: item, span: Range { start: a.span.start, end: b.span.end } }
}

/// A list that was read: the items, the position behind them, and how far
/// the rule came.
pub struct Listed<T> {
    pub items: Seq<T>,
    pub end: int,
    pub far: int,
}

/// A sequence of expressions, as long as one more can be read.
pub open spec fn p_many(
    toks: Seq<TokenView>,
    pos: int,
    found: Seq<Spanned<ExprView>>,
    far: int,
) -> Listed<Spanned<ExprView>>
    decreases toks.len() - pos, 20int, 0int,
{
    let one = advance(p_expr(toks, pos), pos, toks.len());
    match one.out {
        Some((e, next)) => p_many(toks, next, found.push(e), further(far, one.far)),
        None => Listed { items: found, end: pos, far: further(far, one.far) },
    }
}

/// An expression: an operator expression, or else a block.
pub open spec fn p_expr(toks: Seq<TokenView>, pos: int) -> Step
    decreases toks.len() - pos, 15int, 0int,
{
    either(p_binary(toks, pos, 2), p_block(toks, pos))
}

/// `{`, expressions, `}`.
pub open spec fn p_block(toks: Seq<TokenView>, pos: int) -> Step
    decreases toks.len() - pos, 9int, 0int,
{
    if 0 <= pos && tok_at(toks, pos) == Some(TokenView::LeftCurly) {
        let inner = p_many(toks, pos + 1, Seq::empty(), pos + 1);
        if tok_at(toks, inner.end) == Some(TokenView::RightCurly) {
            hit(node(ExprView::Block(inner.items), pos, inner.end + 1), inner.end + 1, inner.far)
        } else {
            miss(further(inner.far, inner.end))
        }
    } else {
        miss(pos)
    }
}

/// An expression with operators that was read: the node, the position
/// behind it, and how far the rule came.
pub struct Operated {
    pub node: Spanned<ExprView>,
    pub end: int,
    pub far: int,
}

/// The operators of one level and of those that bind stronger, applied
/// from left to right.
pub open spec fn p_binary(toks: Seq<TokenView>, pos: int, level: int) -> Step
    decreases toks.len() - pos, 11int + level, 1int,
{
    if level < 0 || level > 2 {
        miss(pos)
    } else {
        let first = advance(
            if level == 0 {
                p_unary(toks, pos)
            } else {
                p_binary(toks, pos, level - 1)
            },
            pos,
            toks.len(),
        );
        match first.out {
            Some((lhs, next)) => {
                let whole = p_binary_rest(toks, next, level, lhs, first.far);
                hit(whole.node, whole.end, whole.far)
            },
            None => first,
        }
    }
}

/// What follows the first operand of a level: an operator of the level and
/// an operand, as often as both are there.
pub open spec fn p_binary_rest(
    toks: Seq<TokenView>,
    pos: int,
    level: int,
    lhs: Spanned<ExprView>,
    far: int,
) -> Operated
    decreases toks.len() - pos, 11int + level, 0int,
{
    if 0 <= pos < toks.len() && 0 <= level <= 2 && operator_at(toks[pos], level) is Some {
        let operand = advance(
            if level == 0 {
                p_unary(toks, pos + 1)
            } else {
                p_binary(toks, pos + 1, level - 1)
            },
            pos + 1,
            toks.len(),
        );
        match operand.out {
            Some((rhs, next)) => p_binary_rest(
                toks,
                next,
                level,
                binary(operator_at(toks[pos], level)->Some_0, lhs, rhs),
                further(far, operand.far),
            ),
            None => Operated { node: lhs, end: pos, far: further(far, operand.far) },
        }
    } else {
        Operated { node: lhs, end: pos, far: far }
    }
}

/// Any number of `-`, then an atom. A negation spans from its `-` to the
/// end of what it negates.
pub open spec fn p_unary(toks: Seq<TokenView>, pos: int) -> Step
    decreases toks.len() - pos, 10int, 1int,
{
    if 0 <= pos && tok_at(toks, pos) == Some(TokenView::Minus) {
        let inner = p_unary(toks, pos + 1);
        match inner.out {
            Some((rhs, next)) => hit(
                Spanned {
                    item: ExprView::Negation(Box::new(rhs)),
                    span: Range { start: pos as usize, end: rhs.span.end },
                },
                next,
                inner.far,
            ),
            None => inner,
        }
    } else {
        p_atom(toks, pos)
    }
}

/// The arguments of a call after the first: each a comma and an
/// expression.
pub open spec fn p_args_rest(
    toks: Seq<TokenView>,
    pos: int,
    found: Seq<Spanned<ExprView>>,
    far: int,
) -> Listed<Spanned<ExprView>>
    decreases toks.len() - pos, 31int, 0int,
{
    if 0 <= pos && tok_at(toks, pos) == Some(TokenView::Comma) {
        let one = advance(p_expr(toks, pos + 1), pos + 1, toks.len());
        match one.out {
            Some((e, next)) => p_args_rest(toks, next, found.push(e), further(far, one.far)),
            None => Listed { items: found, end: pos, far: further(far, one.far) },
        }
    } else {
        Listed { items: found, end: pos, far: further(far, pos) }
    }
}

/// The arguments of a call: expressions with commas between them, or
/// nothing; a comma may stand before the first.
pub open spec fn p_args(toks: Seq<TokenView>, pos: int) -> Listed<Spanned<ExprView>>
    decreases toks.len() - pos, 32int, 0int,
{
    let start = if tok_at(toks, pos) == Some(TokenView::Comma) {
        pos + 1
    } else {
        pos
    };
    if 0 <= pos {
        let one = advance(p_expr(toks, start), start, toks.len());
        match one.out {
            Some((e, next)) => p_args_rest(toks, next, seq![e], one.far),
            None => Listed { items: Seq::empty(), end: start, far: further(one.far, start) },
        }
    } else {
        Listed { items: Seq::empty(), end: start, far: start }
    }
}

/// What the rule for a field of an object gives: the field that was read
/// and the position behind it, if one was read, and how far the rule came.
pub struct EntryStep {
    pub out: Option<((Spanned<ExprView>, Spanned<ExprView>), int)>,
    pub far: int,
}

/// One field of an object: `key : value`.
pub open spec fn p_entry(toks: Seq<TokenView>, pos: int) -> EntryStep
    decreases toks.len() - pos, 30int, 0int,
{
    let key = advance(p_expr(toks, pos), pos, toks.len());
    match key.out {
        Some((k, next)) => if tok_at(toks, next) == Some(TokenView::Colon) {
            let value = advance(p_expr(toks, next + 1), next + 1, toks.len());
            match value.out {
                Some((v, end)) => EntryStep {
                    out: Some(((k, v), end)),
                    far: further(key.far, value.far),
                },
                None => EntryStep { out: None, far: further(key.far, value.far) },
            }
        } else {
            EntryStep { out: None, far: further(key.far, next) }
        },
        None => EntryStep { out: None, far: key.far },
    }
}

/// The fields of an object after the first: each a comma and a field.
pub open spec fn p_entries_rest(
    toks: Seq<TokenView>,
    pos: int,
    found: Seq<(Spanned<ExprView>, Spanned<ExprView>)>,
    far: int,
) -> Listed<(Spanned<ExprView>, Spanned<ExprView>)>
    decreases toks.len() - pos, 31int, 0int,
{
    if 0 <= pos && tok_at(toks, pos) == Some(TokenView::Comma) {
        let one = p_entry(toks, pos + 1);
        match one.out {
            Some((entry, next)) => if pos + 1 < next <= toks.len() {
                p_entries_rest(toks, next, found.push(entry), further(far, one.far))
            } else {
                Listed { items: found, end: pos, far: further(far, one.far) }
            },
            None => Listed { items: found, end: pos, far: further(far, one.far) },
        }
    } else {
        Listed { items: found, end: pos, far: further(far, pos) }
    }
}

/// The fields of an object: fields with commas between them, or nothing.
pub open spec fn p_entries(toks: Seq<TokenView>, pos: int) -> Listed<
    (Spanned<ExprView>, Spanned<ExprView>),
>
    decreases toks.len() - pos, 33int, 0int,
{
    let one = p_entry(toks, pos);
    match one.out {
        Some((entry, next)) => if pos < next <= toks.len() {
            p_entries_rest(toks, next, seq![entry], one.far)
        } else {
            Listed { items: Seq::empty(), end: pos, far: further(one.far, pos) }
        },
        None => Listed { items: Seq::empty(), end: pos, far: further(one.far, pos) },
    }
}

/// `(` expression `)`. The brackets add no node of their own.
pub open spec fn p_bracketed(toks: Seq<TokenView>, pos: int) -> Step
    decreases toks.len() - pos, 5int, 0int,
{
    if 0 <= pos && tok_at(toks, pos) == Some(TokenView::LeftParent) {
        let inner = advance(p_expr(toks, pos + 1), pos + 1, toks.len());
        match inner.out {
            Some((e, next)) => if tok_at(toks, next) == Some(TokenView::RightParent) {
                hit(e, next + 1, inner.far)
            } else {
                miss(further(inner.far, next))
            },
            None => inner,
        }
    } else {
        miss(pos)
    }
}

/// A call with brackets: the name of a function, `(`, arguments, `)`.
pub open spec fn p_call(toks: Seq<TokenView>, pos: int) -> Step
    decreases toks.len() - pos, 5int, 0int,
{
    if pos < 0 {
        miss(pos)
    } else {
        match p_func(toks, pos).out {
            Some((callee, next)) => if tok_at(toks, next) == Some(TokenView::LeftParent) {
                let args = p_args(toks, next + 1);
                if tok_at(toks, args.end) == Some(TokenView::RightParent) {
                    hit(
                        node(
                            ExprView::Call { expr: Box::new(callee), args: args.items },
                            pos,
                            args.end + 1,
                        ),
                        args.end + 1,
                        args.far,
                    )
                } else {
                    miss(further(args.far, args.end))
                }
            } else {
                miss(next)
            },
            None => miss(pos),
        }
    }
}

/// An assignment: a variable, `=`, an expression.
pub open spec fn p_assignment(toks: Seq<TokenView>, pos: int) -> Step
    decreases toks.len() - pos, 5int, 0int,
{
    if pos < 0 {
        miss(pos)
    } else {
        match p_var(toks, pos).out {
            Some((target, next)) => if tok_at(toks, next) == Some(TokenView::Assignment) {
                let value = advance(p_expr(toks, next + 1), next + 1, toks.len());
                match value.out {
                    Some((v, end)) => hit(
                        node(
                            ExprView::Assignment { expr: Box::new(target), value: Box::new(v) },
                            pos,
                            end,
                        ),
                        end,
                        value.far,
                    ),
                    None => value,
                }
            } else {
                miss(next)
            },
            None => miss(pos),
        }
    }
}

/// The forms that are a keyword and two expressions.
#[derive(Clone, Copy, Debug, PartialEq, Eq, Structural)]
pub enum PairForm {
    /// `if condition body`.
    If,
    /// `loop count body`.
    Times,
    /// `while condition body`.
    While,
}

impl PairForm {
    pub open spec fn keyword(self) -> TokenView {
        match self {
            PairForm::If => TokenView::If,
            PairForm::Times => TokenView::Loop,
            PairForm::While => TokenView::While,
        }
    }

    pub open spec fn item(self, first: Spanned<ExprView>, second: Spanned<ExprView>) -> ExprView {
        match self {
            PairForm::If => ExprView::If { cond: Box::new(first), body: Box::new(second) },
            PairForm::Times => ExprView::LoopFinite {
                iters: Box::new(first),
                body: Box::new(second),
            },
            PairForm::While => ExprView::While { cond: Box::new(first), body: Box::new(second) },
        }
    }
}

/// A keyword and two expressions: `if`, `loop` with a count, `while`.
pub open spec fn p_pair(toks: Seq<TokenView>, pos: int, form: PairForm) -> Step
    decreases toks.len() - pos, 5int, 0int,
{
    if 0 <= pos && tok_at(toks, pos) == Some(form.keyword()) {
        let first = advance(p_expr(toks, pos + 1), pos + 1, toks.len());
        match first.out {
            Some((a, next)) => {
                let second = advance(p_expr(toks, next), next, toks.len());
                match second.out {
                    Some((b, end)) => hit(
                        node(form.item(a, b), pos, end),
                        end,
                        further(first.far, second.far),
                    ),
                    None => miss(further(first.far, second.far)),
                }
            },
            None => first,
        }
    } else {
        miss(pos)
    }
}

/// `return` and a value, or `return` alone, which returns nothing.
pub open spec fn p_return(toks: Seq<TokenView>, pos: int) -> Step
    decreases toks.len() - pos, 5int, 0int,
{
    if 0 <= pos && tok_at(toks, pos) == Some(TokenView::Return) {
        let value = advance(p_expr(toks, pos + 1), pos + 1, toks.len());
        match value.out {
            Some((v, end)) => hit(
                node(ExprView::Return { value: Box::new(v) }, pos, end),
                end,
                value.far,
            ),
            None => hit(
                node(
                    ExprView::Return { value: Box::new(node(ExprView::Nil, 0, 0)) },
                    pos,
                    pos + 1,
                ),
                pos + 1,
                value.far,
            ),
        }
    } else {
        miss(pos)
    }
}

/// `loop` and a body.
pub open spec fn p_loop(toks: Seq<TokenView>, pos: int) -> Step
    decreases toks.len() - pos, 5int, 0int,
{
    if 0 <= pos && tok_at(toks, pos) == Some(TokenView::Loop) {
        let body = advance(p_expr(toks, pos + 1), pos + 1, toks.len());
        match body.out {
            Some((b, end)) => hit(
                node(ExprView::LoopInfinite { body: Box::new(b) }, pos, end),
                end,
                body.far,
            ),
            None => body,
        }
    } else {
        miss(pos)
    }
}

/// The node of a `for` loop over the tokens `pos..to`.
pub open spec fn for_node(
    var: Seq<char>,
    start: Spanned<ExprView>,
    end: Spanned<ExprView>,
    step: Option<Spanned<ExprView>>,
    body: Spanned<ExprView>,
    pos: int,
    to: int,
) -> Spanned<ExprView> {
    node(
        ExprView::For {
            var: var,
            start: Box::new(start),
            end: Box::new(end),
            step: match step {
                Some(s) => Some(Box::new(s)),
                None => None,
            },
            body: Box::new(body),
        },
        pos,
        to,
    )
}

/// What the rule for the end of a `for` loop gives: the step, if there is
/// one, the body and the position behind it, if they were read, and how
/// far the rule came.
pub struct ForEnd {
    pub out: Option<(Option<Spanned<ExprView>>, Spanned<ExprView>, int)>,
    pub far: int,
}

/// The end of a `for` loop: a step and a block, or a block alone.
pub open spec fn for_end(toks: Seq<TokenView>, pos: int, with_step: bool) -> ForEnd
    decreases toks.len() - pos, 16int, 0int,
{
    if with_step {
        let step = advance(p_expr(toks, pos), pos, toks.len());
        match step.out {
            Some((s, n3)) => {
                let body = advance(p_block(toks, n3), n3, toks.len());
                match body.out {
                    Some((b, n4)) => ForEnd {
                        out: Some((Some(s), b, n4)),
                        far: further(step.far, body.far),
                    },
                    None => ForEnd { out: None, far: further(step.far, body.far) },
                }
            },
            None => ForEnd { out: None, far: step.far },
        }
    } else {
        let body = advance(p_block(toks, pos), pos, toks.len());
        match body.out {
            Some((b, n3)) => ForEnd { out: Some((None, b, n3)), far: body.far },
            None => ForEnd { out: None, far: body.far },
        }
    }
}

/// The first of the two ends of a `for` loop that was read.
pub open spec fn either_end(a: ForEnd, b: ForEnd) -> ForEnd {
    match a.out {
        Some(_) => a,
        None => ForEnd { out: b.out, far: further(a.far, b.far) },
    }
}

/// `for`, a variable, start, end, a step if wanted, and a block. The form
/// with a step is tried first.
pub open spec fn p_for(toks: Seq<TokenView>, pos: int) -> Step
    decreases toks.len() - pos, 5int, 0int,
{
    if 0 <= pos && tok_at(toks, pos) == Some(TokenView::For) {
        match name_at(toks, pos + 1, false) {
            Some(var) => {
                let start = advance(p_expr(toks, pos + 2), pos + 2, toks.len());
                match start.out {
                    Some((a, n1)) => {
                        let end = advance(p_expr(toks, n1), n1, toks.len());
                        match end.out {
                            Some((b, n2)) => {
                                let rest = either_end(
                                    for_end(toks, n2, true),
                                    for_end(toks, n2, false),
                                );
                                let far = further(further(start.far, end.far), rest.far);
                                match rest.out {
                                    Some((step, body, next)) => if n2 < next <= toks.len() {
                                        hit(for_node(var, a, b, step, body, pos, next), next, far)
                                    } else {
                                        miss(far)
                                    },
                                    None => miss(far),
                                }
                            },
                            None => miss(further(start.far, end.far)),
                        }
                    },
                    None => start,
                }
            },
            None => miss(pos + 1),
        }
    } else {
        miss(pos)
    }
}

/// A function definition: `fn`, a name, `(`, parameters, `)`, a body.
pub open spec fn p_fndef(toks: Seq<TokenView>, pos: int) -> Step
    decreases toks.len() - pos, 5int, 0int,
{
    if 0 <= pos && tok_at(toks, pos) == Some(TokenView::FnDef) {
        if name_at(toks, pos + 1, true) is None {
            miss(pos + 1)
        } else if tok_at(toks, pos + 2) != Some(TokenView::LeftParent) {
            miss(pos + 2)
        } else {
            let (params, next) = p_params(toks, pos + 3);
            if tok_at(toks, next) == Some(TokenView::RightParent) && pos < next {
                let body = advance(p_expr(toks, next + 1), next + 1, toks.len());
                match body.out {
                    Some((b, end)) => hit(
                        node(
                            ExprView::FnDef {
                                name: name_at(toks, pos + 1, true)->Some_0,
                                args: params,
                                body: Box::new(b),
                            },
                            pos,
                            end,
                        ),
                        end,
                        body.far,
                    ),
                    None => body,
                }
            } else {
                miss(next)
            }
        }
    } else {
        miss(pos)
    }
}

/// An object: `{`, fields, `}`.
pub open spec fn p_objdef(toks: Seq<TokenView>, pos: int) -> Step
    decreases toks.len() - pos, 5int, 0int,
{
    if 0 <= pos && tok_at(toks, pos) == Some(TokenView::LeftCurly) {
        let entries = p_entries(toks, pos + 1);
        if tok_at(toks, entries.end) == Some(TokenView::RightCurly) {
            hit(
                node(ExprView::ObjDef { object: entries.items }, pos, entries.end + 1),
                entries.end + 1,
                entries.far,
            )
        } else {
            miss(further(entries.far, entries.end))
        }
    } else {
        miss(pos)
    }
}

/// `break`.
pub open spec fn p_break(toks: Seq<TokenView>, pos: int) -> Step {
    if tok_at(toks, pos) == Some(TokenView::Break) {
        hit(node(ExprView::Break, pos, pos + 1), pos + 1, pos)
    } else {
        miss(pos)
    }
}

/// The forms that begin with a keyword, tried in this order: `if`,
/// `return`, `break`, `loop` with a count, `loop`, `for`, `while`, a
/// function definition.
pub open spec fn p_keyword(toks: Seq<TokenView>, pos: int) -> Step
    decreases toks.len() - pos, 6int, 0int,
{
    either(
        p_pair(toks, pos, PairForm::If),
        either(
            p_return(toks, pos),
            either(
                p_break(toks, pos),
                either(
                    p_pair(toks, pos, PairForm::Times),
                    either(
                        p_loop(toks, pos),
                        either(
                            p_for(toks, pos),
                            either(p_pair(toks, pos, PairForm::While), p_fndef(toks, pos)),
                        ),
                    ),
                ),
            ),
        ),
    )
}

/// The first of these that fits, tried in this order: a literal, a
/// bracketed expression, a call with brackets, an assignment, a form that
/// begins with a keyword, a call without brackets, a variable, an object.
pub open spec fn p_atom(toks: Seq<TokenView>, pos: int) -> Step
    decreases toks.len() - pos, 10int, 0int,
{
    either(
        p_literal(toks, pos),
        either(
            p_bracketed(toks, pos),
            either(
                p_call(toks, pos),
                either(
                    p_assignment(toks, pos),
                    either(
                        p_keyword(toks, pos),
                        either(
                            p_shortcall(toks, pos),
                            either(p_var(toks, pos), p_objdef(toks, pos)),
                        ),
                    ),
                ),
            ),
        ),
    )
}

/// What a whole list of tokens is read as: the root block of the program,
/// or the position at which it could not be read on, which is as far as
/// the grammar came. That is the position of a token, or the number of
/// tokens where the tokens end too soon.
pub open spec fn p_program(toks: Seq<TokenView>) -> Result<Spanned<ExprView>, int> {
    let all = p_many(toks, 0, Seq::empty(), 0);
    if all.end == toks.len() {
        Ok(node(ExprView::Block(all.items), 0, toks.len() as int))
    } else {
        Err(further(all.far, all.end))
    }
}

} // verus!
