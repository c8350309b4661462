//! The parser: from source text, or from a list of tokens, to the syntax
//! tree that the grammar gives.

use vstd::prelude::*;
use vstd::string::StringExecFns;
use std::ops::Range;
use crate::ast::{
    Expression, ExprView, Spanned, copy_span, names_view, expr_list_view, expr_pairs_view,
};
use crate::error::{Error, ErrorView};
use crate::grammar::{
    BinaryOp, ForEnd, Listed, Operated, PairForm, Step, binary, either_end, for_end, further,
    name_at, node, operator_at, p_args, p_args_rest, p_assignment, p_atom, p_binary,
    p_binary_rest, p_block, p_bracketed, p_break, p_call, p_entries, p_entries_rest, p_entry,
    p_expr, p_fndef, p_for, p_keyword, p_literal, p_loop, p_many, p_named, p_objdef, p_pair,
    p_params, p_params_rest, p_program, p_return, p_shortcall, p_unary, tok_at,
};
use crate::lexer::{LexemeView, lexemes_of, lexemes_view, tokenize};
use crate::program::tokens_view;
use crate::tokens::{Token, TokenView};

verus! {

/// The span in the source of the tokens `r.start..r.end`: from the start
/// of the first to the end of the last. An empty range of tokens has the
/// span `0..0`.
pub open spec fn byte_span(spans: Seq<Range<usize>>, r: Range<usize>) -> Range<usize> {
    if r.start < r.end <= spans.len() {
        Range { start: spans[r.start as int].start, end: spans[r.end - 1].end }
    } else {
        Range { start: 0, end: 0 }
    }
}

/// A tree whose spans count tokens, with each span replaced by the span in
/// the source of the tokens it counts.
pub open spec fn respan(tree: Spanned<ExprView>, spans: Seq<Range<usize>>) -> Spanned<ExprView>
    decreases tree,
{
    Spanned { item: respan_item(tree.item, spans), span: byte_span(spans, tree.span) }
}

pub open spec fn respan_list(items: Seq<Spanned<ExprView>>, spans: Seq<Range<usize>>) -> Seq<
    Spanned<ExprView>,
>
    decreases items,
{
    Seq::new(
        items.len(),
        |i: int|
            if 0 <= i < items.len() {
                respan(items[i], spans)
            } else {
                arbitrary()
            },
    )
}

pub open spec fn respan_pairs(
    items: Seq<(Spanned<ExprView>, Spanned<ExprView>)>,
    spans: Seq<Range<usize>>,
) -> Seq<(Spanned<ExprView>, Spanned<ExprView>)>
    decreases items,
{
    Seq::new(
        items.len(),
        |i: int|
            if 0 <= i < items.len() {
                (respan(items[i].0, spans), respan(items[i].1, spans))
            } else {
                arbitrary()
            },
    )
}

pub open spec fn respan_item(e: ExprView, spans: Seq<Range<usize>>) -> ExprView
    decreases e,
{
    match e {
        ExprView::Call { expr, args } => ExprView::Call {
            expr: Box::new(respan(*expr, spans)),
            args: respan_list(args, spans),
        },
        ExprView::Assignment { expr, value } => ExprView::Assignment {
            expr: Box::new(respan(*expr, spans)),
            value: Box::new(respan(*value, spans)),
        },
        ExprView::ObjDef { object } => ExprView::ObjDef { object: respan_pairs(object, spans) },
        ExprView::Return { value } => ExprView::Return { value: Box::new(respan(*value, spans)) },
        ExprView::Break => ExprView::Break,
        ExprView::If { cond, body } => ExprView::If {
            cond: Box::new(respan(*cond, spans)),
            body: Box::new(respan(*body, spans)),
        },
        ExprView::LoopFinite { iters, body } => ExprView::LoopFinite {
            iters: Box::new(respan(*iters, spans)),
            body: Box::new(respan(*body, spans)),
        },
        ExprView::LoopInfinite { body } => ExprView::LoopInfinite {
            body: Box::new(respan(*body, spans)),
        },
        ExprView::For { var, start, end, step, body } => ExprView::For {
            var: var,
            start: Box::new(respan(*start, spans)),
            end: Box::new(respan(*end, spans)),
            step: match step {
                Some(s) => Some(Box::new(respan(*s, spans))),
                None => None,
            },
            body: Box::new(respan(*body, spans)),
        },
        ExprView::While { cond, body } => ExprView::While {
            cond: Box::new(respan(*cond, spans)),
            body: Box::new(respan(*body, spans)),
        },
        ExprView::FnDef { name, args, body } => ExprView::FnDef {
            name: name,
            args: args,
            body: Box::new(respan(*body, spans)),
        },
        ExprView::Negation(a) => ExprView::Negation(Box::new(respan(*a, spans))),
        ExprView::Multiply(a, b) => ExprView::Multiply(
            Box::new(respan(*a, spans)),
            Box::new(respan(*b, spans)),
        ),
        ExprView::Division(a, b) => ExprView::Division(
            Box::new(respan(*a, spans)),
            Box::new(respan(*b, spans)),
        ),
        ExprView::Addition(a, b) => ExprView::Addition(
            Box::new(respan(*a, spans)),
            Box::new(respan(*b, spans)),
        ),
        ExprView::Subtraction(a, b) => ExprView::Subtraction(
            Box::new(respan(*a, spans)),
            Box::new(respan(*b, spans)),
        ),
        ExprView::Eq(a, b) => ExprView::Eq(
            Box::new(respan(*a, spans)),
            Box::new(respan(*b, spans)),
        ),
        ExprView::Neq(a, b) => ExprView::Neq(
            Box::new(respan(*a, spans)),
            Box::new(respan(*b, spans)),
        ),
        ExprView::Lt(a, b) => ExprView::Lt(
            Box::new(respan(*a, spans)),
            Box::new(respan(*b, spans)),
        ),
        ExprView::Gt(a, b) => ExprView::Gt(
            Box::new(respan(*a, spans)),
            Box::new(respan(*b, spans)),
        ),
        ExprView::Lte(a, b) => ExprView::Lte(
            Box::new(respan(*a, spans)),
            Box::new(respan(*b, spans)),
        ),
        ExprView::Gte(a, b) => ExprView::Gte(
            Box::new(respan(*a, spans)),
            Box::new(respan(*b, spans)),
        ),
        ExprView::Int(v) => ExprView::Int(v),
        ExprView::Float(v) => ExprView::Float(v),
        ExprView::String(v) => ExprView::String(v),
        ExprView::Image(v) => ExprView::Image(v),
        ExprView::Key(v) => ExprView::Key(v),
        ExprView::Variable { parent, name } => ExprView::Variable {
            parent: match parent {
                Some(p) => Some(Box::new(respan(*p, spans))),
                None => None,
            },
            name: name,
        },
        ExprView::Nil => ExprView::Nil,
        ExprView::Block(items) => ExprView::Block(respan_list(items, spans)),
    }
}

/// The tokens of a list of spanned tokens.
pub open spec fn stream_tokens(stream: Seq<Spanned<Token>>) -> Seq<TokenView> {
    Seq::new(stream.len(), |i: int| stream[i].item@)
}

/// The spans of a list of spanned tokens.
pub open spec fn stream_spans(stream: Seq<Spanned<Token>>) -> Seq<Range<usize>> {
    Seq::new(stream.len(), |i: int| stream[i].span)
}

/// Whether a node of the grammar lies within the tokens `pos..next` and is
/// not empty.
pub open spec fn within(n: Spanned<ExprView>, pos: int, next: int) -> bool {
    pos <= n.span.start < n.span.end <= next
}

/// What the parser gives for a rule: the node that was read and the
/// position behind it, if the rule could read one, and how far the rule
/// came.
pub struct Found {
    pub out: Option<(Spanned<Expression>, usize)>,
    pub far: usize,
}

/// Whether what the parser read at `pos` is what the grammar gives there.
pub open spec fn agrees(r: Found, s: Step, stream: Seq<Spanned<Token>>, pos: int) -> bool {
    &&& r.far == s.far
    &&& pos <= s.far <= stream.len()
    &&& match s.out {
        Some((n, next)) => {
            &&& r.out matches Some((x, after))
            &&& after == next
            &&& x@ == respan(n, stream_spans(stream))
            &&& pos < next <= stream.len()
            &&& within(n, pos, next)
        },
        None => r.out is None,
    }
}

fn read(n: Spanned<Expression>, next: usize, far: usize) -> (r: Found)
    ensures
        r.out == Some((n, next)),
        r.far == far,
{
    Found { out: Some((n, next)), far: far }
}

fn missed(far: usize) -> (r: Found)
    ensures
        r.out is None,
        r.far == far,
{
    Found { out: None, far: far }
}

/// The span in the source of the tokens `from..to`.
fn span_of(toks: &Vec<Spanned<Token>>, from: usize, to: usize) -> (r: Range<usize>)
    requires
        from < to <= toks.len(),
    ensures
        r == byte_span(stream_spans(toks@), Range { start: from, end: to }),
{
    Range { start: toks[from].span.start, end: toks[to - 1].span.end }
}

/// Whether the token at `pos` is of the same kind as `kind`, which carries
/// no payload.
fn is_at(toks: &Vec<Spanned<Token>>, pos: usize, kind: &Token) -> (r: bool)
    requires
        plain(kind@),
    ensures
        r == (tok_at(stream_tokens(toks@), pos as int) == Some(kind@)),
        r ==> pos < toks.len(),
{
    if pos < toks.len() {
        same_plain(&toks[pos].item, kind)
    } else {
        false
    }
}

/// The tokens that carry no payload and that the grammar asks for by kind.
pub open spec fn plain(t: TokenView) -> bool {
    t is If || t is Return || t is Break || t is Loop || t is For || t is While || t is FnDef
        || t is LeftParent || t is RightParent || t is LeftCurly || t is RightCurly || t is Comma
        || t is Colon || t is Dot || t is Minus || t is Assignment
}

fn same_plain(a: &Token, b: &Token) -> (r: bool)
    requires
        plain(b@),
    ensures
        r == (a@ == b@),
{
    match b {
        Token::If => matches!(a, Token::If),
        Token::Return => matches!(a, Token::Return),
        Token::Break => matches!(a, Token::Break),
        Token::Loop => matches!(a, Token::Loop),
        Token::For => matches!(a, Token::For),
        Token::While => matches!(a, Token::While),
        Token::FnDef => matches!(a, Token::FnDef),
        Token::LeftParent => matches!(a, Token::LeftParent),
        Token::RightParent => matches!(a, Token::RightParent),
        Token::LeftCurly => matches!(a, Token::LeftCurly),
        Token::RightCurly => matches!(a, Token::RightCurly),
        Token::Comma => matches!(a, Token::Comma),
        Token::Colon => matches!(a, Token::Colon),
        Token::Dot => matches!(a, Token::Dot),
        Token::Minus => matches!(a, Token::Minus),
        Token::Assignment => matches!(a, Token::Assignment),
        _ => false,
    }
}

/// The greater of two positions.
fn later(a: usize, b: usize) -> (r: usize)
    ensures
        r == further(a as int, b as int),
{
    if a >= b {
        a
    } else {
        b
    }
}

fn parse_literal(toks: &Vec<Spanned<Token>>, pos: usize) -> (r: Found)
    requires
        pos <= toks.len(),
    ensures
        agrees(r, p_literal(stream_tokens(toks@), pos as int), toks@, pos as int),
{
    if pos >= toks.len() {
        return missed(pos);
    }
    let item = match &toks[pos].item {
        Token::Integer(x) => Expression::Int(*x),
        Token::String(x) => Expression::String(x.clone()),
        Token::Float(x) => Expression::Float(x.clone()),
        Token::Image(x) => Expression::Image(x.clone()),
        Token::Key(x) => Expression::Key(x.clone()),
        _ => {
            return missed(pos);
        },
    };
    read(Spanned::new(item, span_of(toks, pos, pos + 1)), pos + 1, pos)
}

fn name_of(toks: &Vec<Spanned<Token>>, pos: usize, function: bool) -> (r: Option<String>)
    ensures
        match name_at(stream_tokens(toks@), pos as int, function) {
            Some(n) => r matches Some(s) && s@ == n && pos < toks.len(),
            None => r is None,
        },
{
    if pos >= toks.len() {
        return None;
    }
    match &toks[pos].item {
        Token::Function(f) => if function {
            Some(f.clone())
        } else {
            None
        },
        Token::Variable(v) => if function {
            None
        } else {
            Some(v.clone())
        },
        _ => None,
    }
}

fn parse_named(toks: &Vec<Spanned<Token>>, pos: usize, function: bool) -> (r: Found)
    requires
        pos <= toks.len(),
    ensures
        agrees(r, p_named(stream_tokens(toks@), pos as int, function), toks@, pos as int),
{
    if pos >= toks.len() {
        return missed(pos);
    }
    if toks.len() - pos >= 3 {
        match name_of(toks, pos, false) {
            Some(parent_name) => {
                if is_at(toks, pos + 1, &Token::Dot) {
                    match name_of(toks, pos + 2, function) {
                        Some(name) => {
                            let parent = Spanned::new(
                                Expression::Variable { parent: None, name: parent_name },
                                span_of(toks, pos, pos + 1),
                            );
                            proof {
                                assert(parent@ == respan(
                                    node(
                                        ExprView::Variable { parent: None, name: parent_name@ },
                                        pos as int,
                                        pos + 1,
                                    ),
                                    stream_spans(toks@),
                                ));
                            }
                            return read(
                                Spanned::new(
                                    Expression::Variable {
                                        parent: Some(Box::new(parent)),
                                        name: name,
                                    },
                                    span_of(toks, pos, pos + 3),
                                ),
                                pos + 3,
                                pos,
                            );
                        },
                        None => {},
                    }
                }
            },
            None => {},
        }
    }
    match name_of(toks, pos, function) {
        Some(name) => read(
            Spanned::new(
                Expression::Variable { parent: None, name: name },
                span_of(toks, pos, pos + 1),
            ),
            pos + 1,
            pos,
        ),
        None => missed(pos),
    }
}

fn parse_shortcall(toks: &Vec<Spanned<Token>>, pos: usize) -> (r: Found)
    requires
        pos <= toks.len(),
    ensures
        agrees(r, p_shortcall(stream_tokens(toks@), pos as int), toks@, pos as int),
{
    let ghost spans = stream_spans(toks@);
    proof {
        reveal_with_fuel(respan, 2);
        reveal_with_fuel(respan_item, 2);
    }
    match parse_named(toks, pos, true).out {
        Some((callee, next)) => {
            let literal = parse_literal(toks, next);
            let arg = if literal.out.is_some() {
                literal
            } else {
                let named = parse_named(toks, next, false);
                Found { out: named.out, far: later(literal.far, named.far) }
            };
            match arg.out {
                Some((a, end)) => {
                    let mut args: Vec<Spanned<Expression>> = Vec::new();
                    args.push(a);
                    let made = Spanned::new(
                        Expression::Call { expr: Box::new(callee), args: args },
                        span_of(toks, pos, end),
                    );
                    proof {
                        let s = p_shortcall(stream_tokens(toks@), pos as int).out->Some_0.0;
                        assert(made@.item->Call_args =~= respan(s, spans).item->Call_args);
                    }
                    read(made, end, arg.far)
                },
                None => {
                    let args: Vec<Spanned<Expression>> = Vec::new();
                    let made = Spanned::new(
                        Expression::Call { expr: Box::new(callee), args: args },
                        span_of(toks, pos, next),
                    );
                    proof {
                        let s = p_shortcall(stream_tokens(toks@), pos as int).out->Some_0.0;
                        assert(made@.item->Call_args =~= respan(s, spans).item->Call_args);
                    }
                    read(made, next, arg.far)
                },
            }
        },
        None => missed(pos),
    }
}

fn parse_params(toks: &Vec<Spanned<Token>>, pos: usize) -> (r: (Vec<String>, usize))
    requires
        pos <= toks.len(),
    ensures
        (names_view(&r.0), r.1 as int) == p_params(stream_tokens(toks@), pos as int),
        pos <= r.1 <= toks.len(),
{
    let ghost ts = stream_tokens(toks@);
    let mut found: Vec<String> = Vec::new();
    match name_of(toks, pos, false) {
        Some(first) => {
            found.push(first);
        },
        None => {
            proof {
                assert(names_view(&found) =~= Seq::<Seq<char>>::empty());
            }
            return (found, pos);
        },
    }
    let mut cur: usize = pos + 1;
    proof {
        assert(names_view(&found) =~= seq![name_at(ts, pos as int, false)->Some_0]);
    }
    loop
        invariant
            pos < cur <= toks.len(),
            ts == stream_tokens(toks@),
            p_params(ts, pos as int) == p_params_rest(ts, cur as int, names_view(&found)),
        ensures
            p_params(ts, pos as int) == (names_view(&found), cur as int),
        decreases toks.len() - cur,
    {
        if !is_at(toks, cur, &Token::Comma) {
            break ;
        }
        match name_of(toks, cur + 1, false) {
            Some(name) => {
                let ghost before = names_view(&found);
                found.push(name);
                proof {
                    assert(names_view(&found) =~= before.push(name@));
                }
                cur = cur + 2;
            },
            None => {
                break ;
            },
        }
    }
    (found, cur)
}

fn operator_of(t: &Token, level: u8) -> (r: Option<BinaryOp>)
    ensures
        r == operator_at(t@, level as int),
{
    if level == 0 {
        match t {
            Token::Star => Some(BinaryOp::Multiply),
            Token::Slash => Some(BinaryOp::Division),
            _ => None,
        }
    } else if level == 1 {
        match t {
            Token::Plus => Some(BinaryOp::Addition),
            Token::Minus => Some(BinaryOp::Subtraction),
            _ => None,
        }
    } else {
        match t {
            Token::Eq => Some(BinaryOp::Eq),
            Token::Neq => Some(BinaryOp::Neq),
            Token::Lt => Some(BinaryOp::Lt),
            Token::Gt => Some(BinaryOp::Gt),
            Token::Lte => Some(BinaryOp::Lte),
            Token::Gte => Some(BinaryOp::Gte),
            _ => None,
        }
    }
}

fn make_binary(
    op: BinaryOp,
    a: Spanned<Expression>,
    b: Spanned<Expression>,
    Ghost(na): Ghost<Spanned<ExprView>>,
    Ghost(nb): Ghost<Spanned<ExprView>>,
    Ghost(spans): Ghost<Seq<Range<usize>>>,
) -> (r: Spanned<Expression>)
    requires
        a@ == respan(na, spans),
        b@ == respan(nb, spans),
        na.span.start < na.span.end <= nb.span.start < nb.span.end <= spans.len(),
    ensures
        r@ == respan(binary(op, na, nb), spans),
{
    let span = Range { start: a.span.start, end: b.span.end };
    let item = match op {
        BinaryOp::Multiply => Expression::Multiply(Box::new(a), Box::new(b)),
        BinaryOp::Division => Expression::Division(Box::new(a), Box::new(b)),
        BinaryOp::Addition => Expression::Addition(Box::new(a), Box::new(b)),
        BinaryOp::Subtraction => Expression::Subtraction(Box::new(a), Box::new(b)),
        BinaryOp::Eq => Expression::Eq(Box::new(a), Box::new(b)),
        BinaryOp::Neq => Expression::Neq(Box::new(a), Box::new(b)),
        BinaryOp::Lt => Expression::Lt(Box::new(a), Box::new(b)),
        BinaryOp::Gt => Expression::Gt(Box::new(a), Box::new(b)),
        BinaryOp::Lte => Expression::Lte(Box::new(a), Box::new(b)),
        BinaryOp::Gte => Expression::Gte(Box::new(a), Box::new(b)),
    };
    Spanned::new(item, span)
}

/// A list that the parser read: the items, the position behind them, and
/// how far the rule came.
pub struct FoundList<T> {
    pub items: Vec<T>,
    pub end: usize,
    pub far: usize,
}

fn parse_many(toks: &Vec<Spanned<Token>>, pos: usize) -> (r: FoundList<Spanned<Expression>>)
    requires
        pos <= toks.len(),
    ensures
        r.end as int == p_many(stream_tokens(toks@), pos as int, Seq::empty(), pos as int).end,
        r.far as int == p_many(stream_tokens(toks@), pos as int, Seq::empty(), pos as int).far,
        expr_list_view(&r.items) == respan_list(
            p_many(stream_tokens(toks@), pos as int, Seq::empty(), pos as int).items,
            stream_spans(toks@),
        ),
        pos <= r.end <= toks.len(),
        pos <= r.far <= toks.len(),
    decreases toks.len() - pos, 20int, 0int,
{
    let ghost ts = stream_tokens(toks@);
    let ghost spans = stream_spans(toks@);
    let mut items: Vec<Spanned<Expression>> = Vec::new();
    let ghost mut found: Seq<Spanned<ExprView>> = Seq::empty();
    let mut cur: usize = pos;
    let mut far: usize = pos;
    proof {
        assert(expr_list_view(&items) =~= respan_list(found, spans));
    }
    loop
        invariant
            pos <= cur <= toks.len(),
            pos <= far <= toks.len(),
            ts == stream_tokens(toks@),
            spans == stream_spans(toks@),
            p_many(ts, pos as int, Seq::empty(), pos as int) == p_many(
                ts,
                cur as int,
                found,
                far as int,
            ),
            expr_list_view(&items) == respan_list(found, spans),
        ensures
            p_many(ts, pos as int, Seq::empty(), pos as int) == (Listed {
                items: found,
                end: cur as int,
                far: far as int,
            }),
            expr_list_view(&items) == respan_list(found, spans),
            pos <= cur <= toks.len(),
            pos <= far <= toks.len(),
        decreases toks.len() - cur,
    {
        let one = parse_expr(toks, cur);
        far = later(far, one.far);
        match one.out {
            Some((e, next)) => {
                let ghost n = p_expr(ts, cur as int).out->Some_0.0;
                let ghost before = expr_list_view(&items);
                items.push(e);
                proof {
                    assert(expr_list_view(&items) =~= before.push(e@));
                    assert(respan_list(found.push(n), spans) =~= respan_list(found, spans).push(
                        respan(n, spans),
                    ));
                    found = found.push(n);
                }
                cur = next;
            },
            None => {
                break ;
            },
        }
    }
    FoundList { items: items, end: cur, far: far }
}

fn parse_expr(toks: &Vec<Spanned<Token>>, pos: usize) -> (r: Found)
    requires
        pos <= toks.len(),
    ensures
        agrees(r, p_expr(stream_tokens(toks@), pos as int), toks@, pos as int),
    decreases toks.len() - pos, 15int, 0int,
{
    let first = parse_binary(toks, pos, 2);
    if first.out.is_some() {
        return first;
    }
    let second = parse_block(toks, pos);
    Found { out: second.out, far: later(first.far, second.far) }
}

fn parse_block(toks: &Vec<Spanned<Token>>, pos: usize) -> (r: Found)
    requires
        pos <= toks.len(),
    ensures
        agrees(r, p_block(stream_tokens(toks@), pos as int), toks@, pos as int),
    decreases toks.len() - pos, 9int, 0int,
{
    if !is_at(toks, pos, &Token::LeftCurly) {
        return missed(pos);
    }
    let inner = parse_many(toks, pos + 1);
    if !is_at(toks, inner.end, &Token::RightCurly) {
        return missed(later(inner.far, inner.end));
    }
    read(
        Spanned::new(Expression::Block(inner.items), span_of(toks, pos, inner.end + 1)),
        inner.end + 1,
        inner.far,
    )
}

fn parse_operand(toks: &Vec<Spanned<Token>>, pos: usize, level: u8) -> (r: Found)
    requires
        level <= 2,
        pos <= toks.len(),
    ensures
        level == 0 ==> agrees(r, p_unary(stream_tokens(toks@), pos as int), toks@, pos as int),
        level > 0 ==> agrees(
            r,
            p_binary(stream_tokens(toks@), pos as int, level - 1),
            toks@,
            pos as int,
        ),
    decreases toks.len() - pos, 11int + level, 0int, 1int,
{
    if level == 0 {
        parse_unary(toks, pos)
    } else {
        parse_binary(toks, pos, level - 1)
    }
}

fn parse_binary(toks: &Vec<Spanned<Token>>, pos: usize, level: u8) -> (r: Found)
    requires
        level <= 2,
        pos <= toks.len(),
    ensures
        agrees(r, p_binary(stream_tokens(toks@), pos as int, level as int), toks@, pos as int),
    decreases toks.len() - pos, 11int + level, 1int, 0int,
{
    let ghost ts = stream_tokens(toks@);
    let ghost spans = stream_spans(toks@);
    let first = parse_operand(toks, pos, level);
    match first.out {
        None => missed(first.far),
        Some((first_read, next)) => {
            let ghost first_node = if level == 0 {
                p_unary(ts, pos as int).out->Some_0.0
            } else {
                p_binary(ts, pos as int, level - 1).out->Some_0.0
            };
            let ghost first_far = first.far as int;
            let mut lhs = first_read;
            let ghost mut lhs_node = first_node;
            let mut cur: usize = next;
            let mut far: usize = first.far;
            loop
                invariant
                    level <= 2,
                    pos < cur <= toks.len(),
                    pos <= far <= toks.len(),
                    ts == stream_tokens(toks@),
                    spans == stream_spans(toks@),
                    p_binary_rest(ts, next as int, level as int, first_node, first_far)
                        == p_binary_rest(ts, cur as int, level as int, lhs_node, far as int),
                    lhs@ == respan(lhs_node, spans),
                    within(lhs_node, pos as int, cur as int),
                ensures
                    p_binary_rest(ts, next as int, level as int, first_node, first_far) == (Operated {
                        node: lhs_node,
                        end: cur as int,
                        far: far as int,
                    }),
                    lhs@ == respan(lhs_node, spans),
                    within(lhs_node, pos as int, cur as int),
                    pos < cur <= toks.len(),
                    pos <= far <= toks.len(),
                decreases toks.len() - cur,
            {
                if cur >= toks.len() {
                    break ;
                }
                match operator_of(&toks[cur].item, level) {
                    Some(op) => {
                        let operand = parse_operand(toks, cur + 1, level);
                        far = later(far, operand.far);
                        match operand.out {
                            Some((rhs, after)) => {
                                let ghost rhs_node = if level == 0 {
                                    p_unary(ts, cur + 1).out->Some_0.0
                                } else {
                                    p_binary(ts, cur + 1, level - 1).out->Some_0.0
                                };
                                lhs = make_binary(
                                    op,
                                    lhs,
                                    rhs,
                                    Ghost(lhs_node),
                                    Ghost(rhs_node),
                                    Ghost(spans),
                                );
                                proof {
                                    lhs_node = binary(op, lhs_node, rhs_node);
                                }
                                cur = after;
                            },
                            None => {
                                break ;
                            },
                        }
                    },
                    None => {
                        break ;
                    },
                }
            }
            read(lhs, cur, far)
        },
    }
}

fn parse_unary(toks: &Vec<Spanned<Token>>, pos: usize) -> (r: Found)
    requires
        pos <= toks.len(),
    ensures
        agrees(r, p_unary(stream_tokens(toks@), pos as int), toks@, pos as int),
    decreases toks.len() - pos, 10int, 1int, 0int,
{
    if is_at(toks, pos, &Token::Minus) {
        let inner = parse_unary(toks, pos + 1);
        match inner.out {
            Some((rhs, next)) => {
                let span = Range { start: toks[pos].span.start, end: rhs.span.end };
                read(Spanned::new(Expression::Negation(Box::new(rhs)), span), next, inner.far)
            },
            None => missed(inner.far),
        }
    } else {
        parse_atom(toks, pos)
    }
}

fn parse_args(toks: &Vec<Spanned<Token>>, pos: usize) -> (r: FoundList<Spanned<Expression>>)
    requires
        pos <= toks.len(),
    ensures
        r.end as int == p_args(stream_tokens(toks@), pos as int).end,
        r.far as int == p_args(stream_tokens(toks@), pos as int).far,
        expr_list_view(&r.items) == respan_list(
            p_args(stream_tokens(toks@), pos as int).items,
            stream_spans(toks@),
        ),
        pos <= r.end <= toks.len(),
        pos <= r.far <= toks.len(),
    decreases toks.len() - pos, 32int, 0int, 0int,
{
    let ghost ts = stream_tokens(toks@);
    let ghost spans = stream_spans(toks@);
    let start = if is_at(toks, pos, &Token::Comma) {
        pos + 1
    } else {
        pos
    };
    let mut items: Vec<Spanned<Expression>> = Vec::new();
    let ghost mut found: Seq<Spanned<ExprView>> = Seq::empty();
    let mut cur: usize;
    let mut far: usize;
    let first = parse_expr(toks, start);
    match first.out {
        Some((e, next)) => {
            let ghost n = p_expr(ts, start as int).out->Some_0.0;
            items.push(e);
            proof {
                found = seq![n];
                assert(expr_list_view(&items) =~= respan_list(found, spans));
            }
            cur = next;
            far = first.far;
        },
        None => {
            proof {
                assert(expr_list_view(&items) =~= respan_list(Seq::empty(), spans));
            }
            return FoundList { items: items, end: start, far: later(first.far, start) };
        },
    }
    loop
        invariant
            pos <= cur <= toks.len(),
            pos <= far <= toks.len(),
            ts == stream_tokens(toks@),
            spans == stream_spans(toks@),
            p_args(ts, pos as int) == p_args_rest(ts, cur as int, found, far as int),
            expr_list_view(&items) == respan_list(found, spans),
        ensures
            p_args(ts, pos as int) == (Listed { items: found, end: cur as int, far: far as int }),
            expr_list_view(&items) == respan_list(found, spans),
            pos <= cur <= toks.len(),
            pos <= far <= toks.len(),
        decreases toks.len() - cur,
    {
        if !is_at(toks, cur, &Token::Comma) {
            far = later(far, cur);
            break ;
        }
        let one = parse_expr(toks, cur + 1);
        far = later(far, one.far);
        match one.out {
            Some((e, next)) => {
                let ghost n = p_expr(ts, cur + 1).out->Some_0.0;
                let ghost before = expr_list_view(&items);
                items.push(e);
                proof {
                    assert(expr_list_view(&items) =~= before.push(e@));
                    assert(respan_list(found.push(n), spans) =~= respan_list(found, spans).push(
                        respan(n, spans),
                    ));
                    found = found.push(n);
                }
                cur = next;
            },
            None => {
                break ;
            },
        }
    }
    FoundList { items: items, end: cur, far: far }
}

/// What the parser gives for a field of an object.
pub struct FoundEntry {
    pub out: Option<((Spanned<Expression>, Spanned<Expression>), usize)>,
    pub far: usize,
}

fn parse_entry(toks: &Vec<Spanned<Token>>, pos: usize) -> (r: FoundEntry)
    requires
        pos <= toks.len(),
    ensures
        r.far == p_entry(stream_tokens(toks@), pos as int).far,
        pos <= r.far <= toks.len(),
        match p_entry(stream_tokens(toks@), pos as int).out {
            Some(((k, v), next)) => {
                &&& r.out matches Some(((x, y), after))
                &&& after == next
                &&& x@ == respan(k, stream_spans(toks@))
                &&& y@ == respan(v, stream_spans(toks@))
                &&& pos < next <= toks.len()
            },
            None => r.out is None,
        },
    decreases toks.len() - pos, 30int, 0int, 0int,
{
    let key = parse_expr(toks, pos);
    match key.out {
        Some((k, next)) => {
            if !is_at(toks, next, &Token::Colon) {
                return FoundEntry { out: None, far: later(key.far, next) };
            }
            let value = parse_expr(toks, next + 1);
            match value.out {
                Some((v, end)) => FoundEntry {
                    out: Some(((k, v), end)),
                    far: later(key.far, value.far),
                },
                None => FoundEntry { out: None, far: later(key.far, value.far) },
            }
        },
        None => FoundEntry { out: None, far: key.far },
    }
}

fn parse_entries(toks: &Vec<Spanned<Token>>, pos: usize) -> (r: FoundList<
    (Spanned<Expression>, Spanned<Expression>),
>)
    requires
        pos <= toks.len(),
    ensures
        r.end as int == p_entries(stream_tokens(toks@), pos as int).end,
        r.far as int == p_entries(stream_tokens(toks@), pos as int).far,
        expr_pairs_view(&r.items) == respan_pairs(
            p_entries(stream_tokens(toks@), pos as int).items,
            stream_spans(toks@),
        ),
        pos <= r.end <= toks.len(),
        pos <= r.far <= toks.len(),
    decreases toks.len() - pos, 33int, 0int, 0int,
{
    let ghost ts = stream_tokens(toks@);
    let ghost spans = stream_spans(toks@);
    let mut items: Vec<(Spanned<Expression>, Spanned<Expression>)> = Vec::new();
    let ghost mut found: Seq<(Spanned<ExprView>, Spanned<ExprView>)> = Seq::empty();
    let mut cur: usize;
    let mut far: usize;
    let first = parse_entry(toks, pos);
    match first.out {
        Some((entry, next)) => {
            let ghost n = p_entry(ts, pos as int).out->Some_0.0;
            items.push(entry);
            proof {
                found = seq![n];
                assert(expr_pairs_view(&items) =~= respan_pairs(found, spans));
            }
            cur = next;
            far = first.far;
        },
        None => {
            proof {
                assert(expr_pairs_view(&items) =~= respan_pairs(Seq::empty(), spans));
            }
            return FoundList { items: items, end: pos, far: later(first.far, pos) };
        },
    }
    loop
        invariant
            pos <= cur <= toks.len(),
            pos <= far <= toks.len(),
            ts == stream_tokens(toks@),
            spans == stream_spans(toks@),
            p_entries(ts, pos as int) == p_entries_rest(ts, cur as int, found, far as int),
            expr_pairs_view(&items) == respan_pairs(found, spans),
        ensures
            p_entries(ts, pos as int) == (Listed {
                items: found,
                end: cur as int,
                far: far as int,
            }),
            expr_pairs_view(&items) == respan_pairs(found, spans),
            pos <= cur <= toks.len(),
            pos <= far <= toks.len(),
        decreases toks.len() - cur,
    {
        if !is_at(toks, cur, &Token::Comma) {
            far = later(far, cur);
            break ;
        }
        let one = parse_entry(toks, cur + 1);
        far = later(far, one.far);
        match one.out {
            Some((entry, next)) => {
                let ghost n = p_entry(ts, cur + 1).out->Some_0.0;
                let ghost before = expr_pairs_view(&items);
                let ghost entry_view = (entry.0@, entry.1@);
                items.push(entry);
                proof {
                    assert(expr_pairs_view(&items) =~= before.push(entry_view));
                    assert(respan_pairs(found.push(n), spans) =~= respan_pairs(found, spans).push(
                        (respan(n.0, spans), respan(n.1, spans)),
                    ));
                    found = found.push(n);
                }
                cur = next;
            },
            None => {
                break ;
            },
        }
    }
    FoundList { items: items, end: cur, far: far }
}

/// `(` expression `)`.
fn parse_bracketed(toks: &Vec<Spanned<Token>>, pos: usize) -> (r: Found)
    requires
        pos <= toks.len(),
    ensures
        agrees(r, p_bracketed(stream_tokens(toks@), pos as int), toks@, pos as int),
    decreases toks.len() - pos, 5int, 0int, 0int,
{
    if !is_at(toks, pos, &Token::LeftParent) {
        return missed(pos);
    }
    let inner = parse_expr(toks, pos + 1);
    match inner.out {
        Some((e, next)) => if is_at(toks, next, &Token::RightParent) {
            read(e, next + 1, inner.far)
        } else {
            missed(later(inner.far, next))
        },
        None => missed(inner.far),
    }
}

/// A call with brackets.
fn parse_call(toks: &Vec<Spanned<Token>>, pos: usize) -> (r: Found)
    requires
        pos <= toks.len(),
    ensures
        agrees(r, p_call(stream_tokens(toks@), pos as int), toks@, pos as int),
    decreases toks.len() - pos, 5int, 0int, 0int,
{
    match parse_named(toks, pos, true).out {
        Some((callee, next)) => {
            if !is_at(toks, next, &Token::LeftParent) {
                return missed(next);
            }
            let args = parse_args(toks, next + 1);
            if !is_at(toks, args.end, &Token::RightParent) {
                return missed(later(args.far, args.end));
            }
            read(
                Spanned::new(
                    Expression::Call { expr: Box::new(callee), args: args.items },
                    span_of(toks, pos, args.end + 1),
                ),
                args.end + 1,
                args.far,
            )
        },
        None => missed(pos),
    }
}

/// An assignment.
fn parse_assignment(toks: &Vec<Spanned<Token>>, pos: usize) -> (r: Found)
    requires
        pos <= toks.len(),
    ensures
        agrees(r, p_assignment(stream_tokens(toks@), pos as int), toks@, pos as int),
    decreases toks.len() - pos, 5int, 0int, 0int,
{
    match parse_named(toks, pos, false).out {
        Some((target, next)) => {
            if !is_at(toks, next, &Token::Assignment) {
                return missed(next);
            }
            let value = parse_expr(toks, next + 1);
            match value.out {
                Some((v, end)) => read(
                    Spanned::new(
                        Expression::Assignment { expr: Box::new(target), value: Box::new(v) },
                        span_of(toks, pos, end),
                    ),
                    end,
                    value.far,
                ),
                None => missed(value.far),
            }
        },
        None => missed(pos),
    }
}

/// A keyword and two expressions: `if`, `loop` with a count, `while`.
fn parse_pair(toks: &Vec<Spanned<Token>>, pos: usize, form: PairForm) -> (r: Found)
    requires
        pos <= toks.len(),
    ensures
        agrees(r, p_pair(stream_tokens(toks@), pos as int, form), toks@, pos as int),
    decreases toks.len() - pos, 5int, 0int, 0int,
{
    let keyword = match form {
        PairForm::If => Token::If,
        PairForm::Times => Token::Loop,
        PairForm::While => Token::While,
    };
    if !is_at(toks, pos, &keyword) {
        return missed(pos);
    }
    let first = parse_expr(toks, pos + 1);
    match first.out {
        Some((a, next)) => {
            let second = parse_expr(toks, next);
            match second.out {
                Some((b, end)) => {
                    let item = match form {
                        PairForm::If => Expression::If { cond: Box::new(a), body: Box::new(b) },
                        PairForm::Times => Expression::LoopFinite {
                            iters: Box::new(a),
                            body: Box::new(b),
                        },
                        PairForm::While => Expression::While {
                            cond: Box::new(a),
                            body: Box::new(b),
                        },
                    };
                    read(
                        Spanned::new(item, span_of(toks, pos, end)),
                        end,
                        later(first.far, second.far),
                    )
                },
                None => missed(later(first.far, second.far)),
            }
        },
        None => missed(first.far),
    }
}

/// `return`, with or without a value.
fn parse_return(toks: &Vec<Spanned<Token>>, pos: usize) -> (r: Found)
    requires
        pos <= toks.len(),
    ensures
        agrees(r, p_return(stream_tokens(toks@), pos as int), toks@, pos as int),
    decreases toks.len() - pos, 5int, 0int, 0int,
{
    if !is_at(toks, pos, &Token::Return) {
        return missed(pos);
    }
    let value = parse_expr(toks, pos + 1);
    match value.out {
        Some((v, end)) => read(
            Spanned::new(Expression::Return { value: Box::new(v) }, span_of(toks, pos, end)),
            end,
            value.far,
        ),
        None => {
            let nothing = Spanned::new(Expression::Nil, Range { start: 0, end: 0 });
            proof {
                assert(nothing@ == respan(node(ExprView::Nil, 0, 0), stream_spans(toks@)));
            }
            read(
                Spanned::new(
                    Expression::Return { value: Box::new(nothing) },
                    span_of(toks, pos, pos + 1),
                ),
                pos + 1,
                value.far,
            )
        },
    }
}

/// `break`.
fn parse_break(toks: &Vec<Spanned<Token>>, pos: usize) -> (r: Found)
    requires
        pos <= toks.len(),
    ensures
        agrees(r, p_break(stream_tokens(toks@), pos as int), toks@, pos as int),
{
    if is_at(toks, pos, &Token::Break) {
        read(Spanned::new(Expression::Break, span_of(toks, pos, pos + 1)), pos + 1, pos)
    } else {
        missed(pos)
    }
}

/// `loop` and a body.
fn parse_loop(toks: &Vec<Spanned<Token>>, pos: usize) -> (r: Found)
    requires
        pos <= toks.len(),
    ensures
        agrees(r, p_loop(stream_tokens(toks@), pos as int), toks@, pos as int),
    decreases toks.len() - pos, 5int, 0int, 0int,
{
    if !is_at(toks, pos, &Token::Loop) {
        return missed(pos);
    }
    let body = parse_expr(toks, pos + 1);
    match body.out {
        Some((b, end)) => read(
            Spanned::new(Expression::LoopInfinite { body: Box::new(b) }, span_of(toks, pos, end)),
            end,
            body.far,
        ),
        None => missed(body.far),
    }
}

/// What the parser gives for the end of a `for` loop.
pub struct FoundForEnd {
    pub out: Option<(Option<Spanned<Expression>>, Spanned<Expression>, usize)>,
    pub far: usize,
}

/// Whether what the parser read as the end of a `for` loop is what the
/// grammar gives.
pub open spec fn end_agrees(
    r: FoundForEnd,
    s: ForEnd,
    stream: Seq<Spanned<Token>>,
    from: int,
) -> bool {
    &&& r.far == s.far
    &&& from <= s.far <= stream.len()
    &&& match s.out {
        Some((step, body, next)) => {
            &&& r.out matches Some((x, b, after))
            &&& after == next
            &&& step_tree(x) == match step {
                Some(n) => Some(respan(n, stream_spans(stream))),
                None => None,
            }
            &&& b@ == respan(body, stream_spans(stream))
            &&& from < next <= stream.len()
        },
        None => r.out is None,
    }
}

/// The end of a `for` loop: a step and a block, or a block alone. `pos` is
/// where the loop begins and `from` where its end begins.
fn parse_for_end(toks: &Vec<Spanned<Token>>, pos: usize, from: usize, with_step: bool) -> (r:
    FoundForEnd)
    requires
        pos < from <= toks.len(),
    ensures
        end_agrees(r, for_end(stream_tokens(toks@), from as int, with_step), toks@, from as int),
    decreases toks.len() - pos, 4int, 0int, 0int,
{
    if with_step {
        let step = parse_expr(toks, from);
        match step.out {
            Some((s, n3)) => {
                let body = parse_block(toks, n3);
                match body.out {
                    Some((b, n4)) => FoundForEnd {
                        out: Some((Some(s), b, n4)),
                        far: later(step.far, body.far),
                    },
                    None => FoundForEnd { out: None, far: later(step.far, body.far) },
                }
            },
            None => FoundForEnd { out: None, far: step.far },
        }
    } else {
        let body = parse_block(toks, from);
        match body.out {
            Some((b, n3)) => FoundForEnd { out: Some((None, b, n3)), far: body.far },
            None => FoundForEnd { out: None, far: body.far },
        }
    }
}

/// The end of a `for` loop: the form with a step, or else the form
/// without.
fn parse_for_ends(toks: &Vec<Spanned<Token>>, pos: usize, from: usize) -> (r: FoundForEnd)
    requires
        pos < from <= toks.len(),
    ensures
        end_agrees(
            r,
            either_end(
                for_end(stream_tokens(toks@), from as int, true),
                for_end(stream_tokens(toks@), from as int, false),
            ),
            toks@,
            from as int,
        ),
    decreases toks.len() - pos, 4int, 1int, 0int,
{
    let first = parse_for_end(toks, pos, from, true);
    if first.out.is_some() {
        return first;
    }
    let second = parse_for_end(toks, pos, from, false);
    FoundForEnd { out: second.out, far: later(first.far, second.far) }
}

/// `for`, with or without a step.
#[verifier::rlimit(100)]
fn parse_for(toks: &Vec<Spanned<Token>>, pos: usize) -> (r: Found)
    requires
        pos <= toks.len(),
    ensures
        agrees(r, p_for(stream_tokens(toks@), pos as int), toks@, pos as int),
    decreases toks.len() - pos, 5int, 0int, 0int,
{
    if !is_at(toks, pos, &Token::For) {
        return missed(pos);
    }
    let var = match name_of(toks, pos + 1, false) {
        Some(v) => v,
        None => {
            return missed(pos + 1);
        },
    };
    let start = parse_expr(toks, pos + 2);
    match start.out {
        Some((a, n1)) => {
            let end = parse_expr(toks, n1);
            match end.out {
                Some((b, n2)) => {
                    let rest = parse_for_ends(toks, pos, n2);
                    let far = later(later(start.far, end.far), rest.far);
                    match rest.out {
                        Some((step, body, next)) => read(
                            make_for(var, a, b, step, body, span_of(toks, pos, next)),
                            next,
                            far,
                        ),
                        None => missed(far),
                    }
                },
                None => missed(later(start.far, end.far)),
            }
        },
        None => missed(start.far),
    }
}

fn make_for(
    var: String,
    start: Spanned<Expression>,
    end: Spanned<Expression>,
    step: Option<Spanned<Expression>>,
    body: Spanned<Expression>,
    span: Range<usize>,
) -> (r: Spanned<Expression>)
    ensures
        r.span == span,
        r@.item == (ExprView::For {
            var: var@,
            start: Box::new(start@),
            end: Box::new(end@),
            step: match step_tree(step) {
                Some(s) => Some(Box::new(s)),
                None => None,
            },
            body: Box::new(body@),
        }),
{
    let step = match step {
        Some(s) => Some(Box::new(s)),
        None => None,
    };
    Spanned::new(
        Expression::For {
            var: var,
            start: Box::new(start),
            end: Box::new(end),
            step: step,
            body: Box::new(body),
        },
        span,
    )
}

/// A function definition.
fn parse_fndef(toks: &Vec<Spanned<Token>>, pos: usize) -> (r: Found)
    requires
        pos <= toks.len(),
    ensures
        agrees(r, p_fndef(stream_tokens(toks@), pos as int), toks@, pos as int),
    decreases toks.len() - pos, 5int, 0int, 0int,
{
    if !is_at(toks, pos, &Token::FnDef) {
        return missed(pos);
    }
    let name = match name_of(toks, pos + 1, true) {
        Some(v) => v,
        None => {
            return missed(pos + 1);
        },
    };
    if !is_at(toks, pos + 2, &Token::LeftParent) {
        return missed(pos + 2);
    }
    let (params, next) = parse_params(toks, pos + 3);
    if !is_at(toks, next, &Token::RightParent) {
        return missed(next);
    }
    let body = parse_expr(toks, next + 1);
    match body.out {
        Some((b, end)) => read(
            Spanned::new(
                Expression::FnDef { name: name, args: params, body: Box::new(b) },
                span_of(toks, pos, end),
            ),
            end,
            body.far,
        ),
        None => missed(body.far),
    }
}

/// An object.
fn parse_objdef(toks: &Vec<Spanned<Token>>, pos: usize) -> (r: Found)
    requires
        pos <= toks.len(),
    ensures
        agrees(r, p_objdef(stream_tokens(toks@), pos as int), toks@, pos as int),
    decreases toks.len() - pos, 5int, 0int, 0int,
{
    if !is_at(toks, pos, &Token::LeftCurly) {
        return missed(pos);
    }
    let entries = parse_entries(toks, pos + 1);
    if !is_at(toks, entries.end, &Token::RightCurly) {
        return missed(later(entries.far, entries.end));
    }
    read(
        Spanned::new(
            Expression::ObjDef { object: entries.items },
            span_of(toks, pos, entries.end + 1),
        ),
        entries.end + 1,
        entries.far,
    )
}

/// The forms that begin with a keyword.
fn parse_keyword(toks: &Vec<Spanned<Token>>, pos: usize) -> (r: Found)
    requires
        pos <= toks.len(),
    ensures
        agrees(r, p_keyword(stream_tokens(toks@), pos as int), toks@, pos as int),
    decreases toks.len() - pos, 6int, 0int, 0int,
{
    let first = parse_pair(toks, pos, PairForm::If);
    if first.out.is_some() {
        return first;
    }
    let mut far: usize = first.far;
    let next = parse_return(toks, pos);
    far = later(far, next.far);
    if next.out.is_some() {
        return Found { out: next.out, far: far };
    }
    let next = parse_break(toks, pos);
    far = later(far, next.far);
    if next.out.is_some() {
        return Found { out: next.out, far: far };
    }
    let next = parse_pair(toks, pos, PairForm::Times);
    far = later(far, next.far);
    if next.out.is_some() {
        return Found { out: next.out, far: far };
    }
    let next = parse_loop(toks, pos);
    far = later(far, next.far);
    if next.out.is_some() {
        return Found { out: next.out, far: far };
    }
    let next = parse_for(toks, pos);
    far = later(far, next.far);
    if next.out.is_some() {
        return Found { out: next.out, far: far };
    }
    let next = parse_pair(toks, pos, PairForm::While);
    far = later(far, next.far);
    if next.out.is_some() {
        return Found { out: next.out, far: far };
    }
    let last = parse_fndef(toks, pos);
    Found { out: last.out, far: later(far, last.far) }
}

fn parse_atom(toks: &Vec<Spanned<Token>>, pos: usize) -> (r: Found)
    requires
        pos <= toks.len(),
    ensures
        agrees(r, p_atom(stream_tokens(toks@), pos as int), toks@, pos as int),
    decreases toks.len() - pos, 10int, 0int, 0int,
{
    let first = parse_literal(toks, pos);
    if first.out.is_some() {
        return first;
    }
    let mut far: usize = first.far;
    let next = parse_bracketed(toks, pos);
    far = later(far, next.far);
    if next.out.is_some() {
        return Found { out: next.out, far: far };
    }
    let next = parse_call(toks, pos);
    far = later(far, next.far);
    if next.out.is_some() {
        return Found { out: next.out, far: far };
    }
    let next = parse_assignment(toks, pos);
    far = later(far, next.far);
    if next.out.is_some() {
        return Found { out: next.out, far: far };
    }
    let next = parse_keyword(toks, pos);
    far = later(far, next.far);
    if next.out.is_some() {
        return Found { out: next.out, far: far };
    }
    let next = parse_shortcall(toks, pos);
    far = later(far, next.far);
    if next.out.is_some() {
        return Found { out: next.out, far: far };
    }
    let next = parse_named(toks, pos, false);
    far = later(far, next.far);
    if next.out.is_some() {
        return Found { out: next.out, far: far };
    }
    let last = parse_objdef(toks, pos);
    Found { out: last.out, far: later(far, last.far) }
}

/// The view of an optional step.
pub open spec fn step_tree(step: Option<Spanned<Expression>>) -> Option<Spanned<ExprView>> {
    match step {
        Some(s) => Some(s@),
        None => None,
    }
}

/// A token with its span.
pub type Spot = (TokenView, Range<usize>);

/// The tokens that mean something to the grammar: all but line ends, `;`
/// and comments, in order.
pub open spec fn meaningful(items: Seq<Spot>) -> Seq<Spot>
    decreases items.len(),
{
    if items.len() == 0 {
        Seq::empty()
    } else if items.last().0.is_layout() {
        meaningful(items.drop_last())
    } else {
        meaningful(items.drop_last()).push(items.last())
    }
}

pub open spec fn spot_tokens(items: Seq<Spot>) -> Seq<TokenView> {
    Seq::new(items.len(), |i: int| items[i].0)
}

pub open spec fn spot_spans(items: Seq<Spot>) -> Seq<Range<usize>> {
    Seq::new(items.len(), |i: int| items[i].1)
}

/// What is said where a program ends too soon.
pub open spec fn end_of_input_message() -> Seq<char> {
    "Unexpected end of input"@
}

/// The error of a list of tokens that could not be read on at `at`: the
/// token there is unexpected; or, where the tokens end there, the end is,
/// and the span is the empty one behind the last token.
pub open spec fn fault_at(tokens: Seq<TokenView>, spans: Seq<Range<usize>>, at: int) -> (
    ErrorView,
    Range<usize>,
) {
    if 0 <= at < tokens.len() {
        (ErrorView::UnexpectedToken(tokens[at]), spans[at])
    } else if spans.len() > 0 {
        (
            ErrorView::SyntaxError(end_of_input_message()),
            Range { start: spans.last().end, end: spans.last().end },
        )
    } else {
        (ErrorView::SyntaxError(end_of_input_message()), Range { start: 0, end: 0 })
    }
}

/// What a list of tokens with spans is parsed to: the tree that the
/// grammar gives for the tokens that mean something to it, with spans in
/// the source; or one error, where the grammar could not go on.
pub open spec fn outcome(items: Seq<Spot>) -> Result<
    Spanned<ExprView>,
    Seq<(ErrorView, Range<usize>)>,
> {
    let kept = meaningful(items);
    match p_program(spot_tokens(kept)) {
        Ok(tree) => Ok(respan(tree, spot_spans(kept))),
        Err(at) => Err(seq![fault_at(spot_tokens(kept), spot_spans(kept), at)]),
    }
}

/// The spans of the lexemes that are errors, in order.
pub open spec fn lex_errors(lexemes: Seq<LexemeView>) -> Seq<(ErrorView, Range<usize>)>
    decreases lexemes.len(),
{
    if lexemes.len() == 0 {
        Seq::empty()
    } else if lexemes.last().token is Err {
        lex_errors(lexemes.drop_last()).push((ErrorView::InvalidToken, lexemes.last().span))
    } else {
        lex_errors(lexemes.drop_last())
    }
}

/// The tokens of lexemes with their spans; where a lexeme is an error,
/// what stands for it does not matter.
pub open spec fn lexeme_spots(lexemes: Seq<LexemeView>) -> Seq<Spot> {
    Seq::new(
        lexemes.len(),
        |i: int|
            match lexemes[i].token {
                Ok(t) => (t, lexemes[i].span),
                Err(_) => (TokenView::Comment, lexemes[i].span),
            },
    )
}

/// Tokens with their place in the list as their span: the token at `i`
/// has the span `i..i + 1`.
pub open spec fn counted_spots(tokens: Seq<TokenView>) -> Seq<Spot> {
    Seq::new(tokens.len(), |i: int| (tokens[i], Range { start: i as usize, end: (i + 1) as usize }))
}

/// What parsing a text gives: the errors of the lexer if there are any, and
/// else the outcome of the grammar on the tokens.
pub open spec fn parse_of(source: Seq<char>) -> Result<
    Spanned<ExprView>,
    Seq<(ErrorView, Range<usize>)>,
> {
    let lexemes = lexemes_of(source);
    if lex_errors(lexemes).len() > 0 {
        Err(lex_errors(lexemes))
    } else {
        outcome(lexeme_spots(lexemes))
    }
}

pub open spec fn errors_view(errors: Seq<Spanned<Error>>) -> Seq<(ErrorView, Range<usize>)> {
    Seq::new(errors.len(), |i: int| (errors[i].item@, errors[i].span))
}

pub open spec fn parse_view(r: Result<Spanned<Expression>, Vec<Spanned<Error>>>) -> Result<
    Spanned<ExprView>,
    Seq<(ErrorView, Range<usize>)>,
> {
    match r {
        Ok(tree) => Ok(tree@),
        Err(errors) => Err(errors_view(errors@)),
    }
}

pub open spec fn stream_spots(stream: Seq<Spanned<Token>>) -> Seq<Spot> {
    Seq::new(stream.len(), |i: int| (stream[i].item@, stream[i].span))
}

/// Parses tokens with their spans, all of which mean something to the
/// grammar.
fn parse_stream(toks: &Vec<Spanned<Token>>) -> (r: Result<Spanned<Expression>, Vec<Spanned<Error>>>)
    ensures
        parse_view(r) == match p_program(stream_tokens(toks@)) {
            Ok(tree) => Ok::<Spanned<ExprView>, Seq<(ErrorView, Range<usize>)>>(
                respan(tree, stream_spans(toks@)),
            ),
            Err(at) => Err(seq![fault_at(stream_tokens(toks@), stream_spans(toks@), at)]),
        },
{
    let all = parse_many(toks, 0);
    if all.end == toks.len() {
        let span = if toks.len() > 0 {
            span_of(toks, 0, toks.len())
        } else {
            Range { start: 0, end: 0 }
        };
        Ok(Spanned::new(Expression::Block(all.items), span))
    } else {
        let at = later(all.far, all.end);
        let error = if at < toks.len() {
            Spanned::new(Error::UnexpectedToken(toks[at].item.clone()), copy_span(&toks[at].span))
        } else {
            let end = toks[toks.len() - 1].span.end;
            Spanned::new(
                Error::SyntaxError(String::from_str("Unexpected end of input")),
                Range { start: end, end: end },
            )
        };
        let ghost expected = fault_at(stream_tokens(toks@), stream_spans(toks@), at as int);
        let mut errors: Vec<Spanned<Error>> = Vec::new();
        errors.push(error);
        proof {
            assert(errors_view(errors@) =~= seq![expected]);
        }
        Err(errors)
    }
}

/// Parses a program from its source text. Where the lexer finds errors,
/// they are all that is reported, and nothing is parsed. Where the grammar
/// cannot read the tokens, the error is at the token at which it came
/// furthest, or behind the last token where the program ends too soon.
pub fn parse(source: &str) -> (r: Result<Spanned<Expression>, Vec<Spanned<Error>>>)
    ensures
        parse_view(r) == parse_of(source@),
{
    let lexemes = tokenize(source);
    let ghost all = lexemes_view(lexemes@);
    let mut errors: Vec<Spanned<Error>> = Vec::new();
    let mut stream: Vec<Spanned<Token>> = Vec::new();
    let mut i: usize = 0;
    proof {
        assert(all.subrange(0, 0) =~= Seq::<LexemeView>::empty());
        assert(errors_view(errors@) =~= Seq::<(ErrorView, Range<usize>)>::empty());
        assert(lexeme_spots(all.subrange(0, 0)) =~= Seq::<Spot>::empty());
        assert(stream_spots(stream@) =~= Seq::<Spot>::empty());
    }
    while i < lexemes.len()
        invariant
            i <= lexemes.len(),
            all == lexemes_view(lexemes@),
            errors_view(errors@) == lex_errors(all.subrange(0, i as int)),
            stream_spots(stream@) == meaningful(lexeme_spots(all.subrange(0, i as int))),
        decreases lexemes.len() - i,
    {
        proof {
            assert(all.subrange(0, i + 1).drop_last() =~= all.subrange(0, i as int));
            assert(all.subrange(0, i + 1).last() == lexemes[i as int]@);
            assert(lexeme_spots(all.subrange(0, i + 1)).drop_last() =~= lexeme_spots(
                all.subrange(0, i as int),
            ));
        }
        match &lexemes[i].token {
            Ok(token) => {
                if !token.is_layout() {
                    let ghost before = stream_spots(stream@);
                    let item = Spanned::new(token.clone(), copy_span(&lexemes[i].span));
                    let ghost added = (item.item@, item.span);
                    stream.push(item);
                    proof {
                        assert(stream_spots(stream@) =~= before.push(added));
                    }
                }
            },
            Err(_) => {
                let ghost before = errors_view(errors@);
                let item = Spanned::new(Error::InvalidToken, copy_span(&lexemes[i].span));
                errors.push(item);
                proof {
                    assert(errors_view(errors@) =~= before.push(
                        (ErrorView::InvalidToken, lexemes[i as int].span),
                    ));
                }
            },
        }
        i += 1;
    }
    proof {
        assert(all.subrange(0, lexemes.len() as int) =~= all);
    }
    if errors.len() > 0 {
        return Err(errors);
    }
    proof {
        assert(stream_tokens(stream@) =~= spot_tokens(stream_spots(stream@)));
        assert(stream_spans(stream@) =~= spot_spans(stream_spots(stream@)));
    }
    parse_stream(&stream)
}

/// Parses a program from its tokens. The spans of the tree, and of an
/// error, count tokens: the token at place `i` of the list has the span
/// `i..i + 1`.
pub fn parse_tokens(tokens: Vec<Token>) -> (r: Result<Spanned<Expression>, Vec<Spanned<Error>>>)
    ensures
        parse_view(r) == outcome(counted_spots(tokens_view(tokens@))),
{
    let ghost all = counted_spots(tokens_view(tokens@));
    let mut stream: Vec<Spanned<Token>> = Vec::new();
    let mut i: usize = 0;
    proof {
        assert(all.subrange(0, 0) =~= Seq::<Spot>::empty());
        assert(stream_spots(stream@) =~= Seq::<Spot>::empty());
    }
    while i < tokens.len()
        invariant
            i <= tokens.len(),
            all == counted_spots(tokens_view(tokens@)),
            stream_spots(stream@) == meaningful(all.subrange(0, i as int)),
        decreases tokens.len() - i,
    {
        proof {
            assert(all.subrange(0, i + 1).drop_last() =~= all.subrange(0, i as int));
        }
        if !tokens[i].is_layout() {
            let ghost before = stream_spots(stream@);
            let item = Spanned::new(tokens[i].clone(), Range { start: i, end: i + 1 });
            let ghost added = (item.item@, item.span);
            stream.push(item);
            proof {
                assert(stream_spots(stream@) =~= before.push(added));
            }
        }
        i += 1;
    }
    proof {
        assert(all.subrange(0, tokens.len() as int) =~= all);
        assert(stream_tokens(stream@) =~= spot_tokens(stream_spots(stream@)));
        assert(stream_spans(stream@) =~= spot_spans(stream_spots(stream@)));
    }
    parse_stream(&stream)
}

/// The tokens of a list of lexemes, errors among them.
pub open spec fn lexeme_tokens(lexemes: Seq<LexemeView>) -> Seq<Result<TokenView, ()>> {
    Seq::new(lexemes.len(), |i: int| lexemes[i].token)
}

pub open spec fn token_results_view(v: Seq<Result<Token, ()>>) -> Seq<Result<TokenView, ()>> {
    Seq::new(
        v.len(),
        |i: int|
            match v[i] {
                Ok(t) => Ok(t@),
                Err(e) => Err(e),
            },
    )
}

/// The tokens of a text, in order; an error stands where the text holds no
/// token.
pub fn get_tokens(source: &str) -> (r: Vec<Result<Token, ()>>)
    ensures
        token_results_view(r@) == lexeme_tokens(lexemes_of(source@)),
{
    let lexemes = tokenize(source);
    let mut out: Vec<Result<Token, ()>> = Vec::new();
    let mut i: usize = 0;
    while i < lexemes.len()
        invariant
            i <= lexemes.len(),
            out.len() == i,
            forall|j: int|
                0 <= j < i ==> (match #[trigger] out[j] {
                    Ok(t) => Ok(t@),
                    Err(e) => Err(e),
                }) == lexemes[j]@.token,
        decreases lexemes.len() - i,
    {
        let item = match &lexemes[i].token {
            Ok(t) => Ok(t.clone()),
            Err(_) => Err(()),
        };
        out.push(item);
        i += 1;
    }
    proof {
        assert(token_results_view(out@) =~= lexeme_tokens(lexemes_view(lexemes@)));
    }
    out
}

} // verus!
