//! The shape of a syntax tree, which is the tree without its spans, and the
//! law that a program parsed from its text and a program parsed from the
//! tokens of that text have the same shape.

use vstd::prelude::*;
use std::ops::Range;
use crate::ast::{ExprView, Spanned};

use crate::lexer::{LexemeView, lexemes_of};
use crate::parser::{
    Spot, counted_spots, lex_errors, lexeme_spots, lexeme_tokens, meaningful, outcome, parse_of,
    respan, respan_item, respan_list, respan_pairs, spot_spans, spot_tokens,
};
use crate::tokens::TokenView;

verus! {

/// A tree with every span set to `0..0`.
pub open spec fn erased(tree: Spanned<ExprView>) -> Spanned<ExprView>
    decreases tree,
{
    Spanned { item: erased_item(tree.item), span: Range { start: 0, end: 0 } }
}

pub open spec fn erased_list(items: Seq<Spanned<ExprView>>) -> Seq<Spanned<ExprView>>
    decreases items,
{
    Seq::new(
        items.len(),
        |i: int|
            if 0 <= i < items.len() {
                erased(items[i])
            } else {
                arbitrary()
            },
    )
}

pub open spec fn erased_pairs(items: Seq<(Spanned<ExprView>, Spanned<ExprView>)>) -> Seq<
    (Spanned<ExprView>, Spanned<ExprView>),
>
    decreases items,
{
    Seq::new(
        items.len(),
        |i: int|
            if 0 <= i < items.len() {
                (erased(items[i].0), erased(items[i].1))
            } else {
                arbitrary()
            },
    )
}

pub open spec fn erased_item(e: ExprView) -> ExprView
    decreases e,
{
    match e {
        ExprView::Call { expr, args } => ExprView::Call {
            expr: Box::new(erased(*expr)),
            args: erased_list(args),
        },
        ExprView::Assignment { expr, value } => ExprView::Assignment {
            expr: Box::new(erased(*expr)),
            value: Box::new(erased(*value)),
        },
        ExprView::ObjDef { object } => ExprView::ObjDef { object: erased_pairs(object) },
        ExprView::Return { value } => ExprView::Return { value: Box::new(erased(*value)) },
        ExprView::Break => ExprView::Break,
        ExprView::If { cond, body } => ExprView::If {
            cond: Box::new(erased(*cond)),
            body: Box::new(erased(*body)),
        },
        ExprView::LoopFinite { iters, body } => ExprView::LoopFinite {
            iters: Box::new(erased(*iters)),
            body: Box::new(erased(*body)),
        },
        ExprView::LoopInfinite { body } => ExprView::LoopInfinite { body: Box::new(erased(*body)) },
        ExprView::For { var, start, end, step, body } => ExprView::For {
            var: var,
            start: Box::new(erased(*start)),
            end: Box::new(erased(*end)),
            step: match step {
                Some(s) => Some(Box::new(erased(*s))),
                None => None,
            },
            body: Box::new(erased(*body)),
        },
        ExprView::While { cond, body } => ExprView::While {
            cond: Box::new(erased(*cond)),
            body: Box::new(erased(*body)),
        },
        ExprView::FnDef { name, args, body } => ExprView::FnDef {
            name: name,
            args: args,
            body: Box::new(erased(*body)),
        },
        ExprView::Negation(a) => ExprView::Negation(Box::new(erased(*a))),
        ExprView::Multiply(a, b) => ExprView::Multiply(Box::new(erased(*a)), Box::new(erased(*b))),
        ExprView::Division(a, b) => ExprView::Division(Box::new(erased(*a)), Box::new(erased(*b))),
        ExprView::Addition(a, b) => ExprView::Addition(Box::new(erased(*a)), Box::new(erased(*b))),
        ExprView::Subtraction(a, b) => ExprView::Subtraction(Box::new(erased(*a)), Box::new(erased(*b))),
        ExprView::Eq(a, b) => ExprView::Eq(Box::new(erased(*a)), Box::new(erased(*b))),
        ExprView::Neq(a, b) => ExprView::Neq(Box::new(erased(*a)), Box::new(erased(*b))),
        ExprView::Lt(a, b) => ExprView::Lt(Box::new(erased(*a)), Box::new(erased(*b))),
        ExprView::Gt(a, b) => ExprView::Gt(Box::new(erased(*a)), Box::new(erased(*b))),
        ExprView::Lte(a, b) => ExprView::Lte(Box::new(erased(*a)), Box::new(erased(*b))),
        ExprView::Gte(a, b) => ExprView::Gte(Box::new(erased(*a)), Box::new(erased(*b))),
        ExprView::Int(v) => ExprView::Int(v),
        ExprView::Float(v) => ExprView::Float(v),
        ExprView::String(v) => ExprView::String(v),
        ExprView::Image(v) => ExprView::Image(v),
        ExprView::Key(v) => ExprView::Key(v),
        ExprView::Variable { parent, name } => ExprView::Variable {
            parent: match parent {
                Some(p) => Some(Box::new(erased(*p))),
                None => None,
            },
            name: name,
        },
        ExprView::Nil => ExprView::Nil,
        ExprView::Block(items) => ExprView::Block(erased_list(items)),
    }
}

/// Two trees have the same shape when they differ in their spans only.
pub open spec fn same_shape(a: Spanned<ExprView>, b: Spanned<ExprView>) -> bool {
    erased(a) == erased(b)
}

/// Giving a tree other spans does not change its shape.
pub proof fn lemma_respan_keeps_shape(tree: Spanned<ExprView>, spans: Seq<Range<usize>>)
    ensures
        erased(respan(tree, spans)) == erased(tree),
    decreases tree,
{
    lemma_respan_item(tree.item, spans);
}

proof fn lemma_respan_list(items: Seq<Spanned<ExprView>>, spans: Seq<Range<usize>>)
    ensures
        erased_list(respan_list(items, spans)) == erased_list(items),
    decreases items,
{
    assert forall|i: int| 0 <= i < items.len() implies erased(respan(items[i], spans)) == erased(
        items[i],
    ) by {
        lemma_respan_keeps_shape(items[i], spans);
    }
    assert(erased_list(respan_list(items, spans)) =~= erased_list(items));
}

proof fn lemma_respan_pairs(
    items: Seq<(Spanned<ExprView>, Spanned<ExprView>)>,
    spans: Seq<Range<usize>>,
)
    ensures
        erased_pairs(respan_pairs(items, spans)) == erased_pairs(items),
    decreases items,
{
    assert forall|i: int| 0 <= i < items.len() implies erased(respan(items[i].0, spans)) == erased(
        items[i].0,
    ) && erased(respan(items[i].1, spans)) == erased(items[i].1) by {
        lemma_respan_keeps_shape(items[i].0, spans);
        lemma_respan_keeps_shape(items[i].1, spans);
    }
    assert(erased_pairs(respan_pairs(items, spans)) =~= erased_pairs(items));
}

proof fn lemma_respan_item(e: ExprView, spans: Seq<Range<usize>>)
    ensures
        erased_item(respan_item(e, spans)) == erased_item(e),
    decreases e,
{
    match e {
        ExprView::Call { expr, args } => {
            lemma_respan_keeps_shape(*expr, spans);
            lemma_respan_list(args, spans);
        },
        ExprView::Assignment { expr, value } => {
            lemma_respan_keeps_shape(*expr, spans);
            lemma_respan_keeps_shape(*value, spans);
        },
        ExprView::ObjDef { object } => {
            lemma_respan_pairs(object, spans);
        },
        ExprView::Return { value } => {
            lemma_respan_keeps_shape(*value, spans);
        },
        ExprView::If { cond, body } => {
            lemma_respan_keeps_shape(*cond, spans);
            lemma_respan_keeps_shape(*body, spans);
        },
        ExprView::LoopFinite { iters, body } => {
            lemma_respan_keeps_shape(*iters, spans);
            lemma_respan_keeps_shape(*body, spans);
        },
        ExprView::LoopInfinite { body } => {
            lemma_respan_keeps_shape(*body, spans);
        },
        ExprView::For { var, start, end, step, body } => {
            lemma_respan_keeps_shape(*start, spans);
            lemma_respan_keeps_shape(*end, spans);
            match step {
                Some(s) => {
                    lemma_respan_keeps_shape(*s, spans);
                },
                None => {},
            }
            lemma_respan_keeps_shape(*body, spans);
        },
        ExprView::While { cond, body } => {
            lemma_respan_keeps_shape(*cond, spans);
            lemma_respan_keeps_shape(*body, spans);
        },
        ExprView::FnDef { name, args, body } => {
            lemma_respan_keeps_shape(*body, spans);
        },
        ExprView::Negation(a) => {
            lemma_respan_keeps_shape(*a, spans);
        },
        ExprView::Multiply(a, b) => {
            lemma_respan_keeps_shape(*a, spans);
            lemma_respan_keeps_shape(*b, spans);
        },
        ExprView::Division(a, b) => {
            lemma_respan_keeps_shape(*a, spans);
            lemma_respan_keeps_shape(*b, spans);
        },
        ExprView::Addition(a, b) => {
            lemma_respan_keeps_shape(*a, spans);
            lemma_respan_keeps_shape(*b, spans);
        },
        ExprView::Subtraction(a, b) => {
            lemma_respan_keeps_shape(*a, spans);
            lemma_respan_keeps_shape(*b, spans);
        },
        ExprView::Eq(a, b) => {
            lemma_respan_keeps_shape(*a, spans);
            lemma_respan_keeps_shape(*b, spans);
        },
        ExprView::Neq(a, b) => {
            lemma_respan_keeps_shape(*a, spans);
            lemma_respan_keeps_shape(*b, spans);
        },
        ExprView::Lt(a, b) => {
            lemma_respan_keeps_shape(*a, spans);
            lemma_respan_keeps_shape(*b, spans);
        },
        ExprView::Gt(a, b) => {
            lemma_respan_keeps_shape(*a, spans);
            lemma_respan_keeps_shape(*b, spans);
        },
        ExprView::Lte(a, b) => {
            lemma_respan_keeps_shape(*a, spans);
            lemma_respan_keeps_shape(*b, spans);
        },
        ExprView::Gte(a, b) => {
            lemma_respan_keeps_shape(*a, spans);
            lemma_respan_keeps_shape(*b, spans);
        },
        ExprView::Variable { parent, name } => {
            match parent {
                Some(p) => {
                    lemma_respan_keeps_shape(*p, spans);
                },
                None => {},
            }
        },
        ExprView::Block(items) => {
            lemma_respan_list(items, spans);
        },
        _ => {},
    }
}

/// Which tokens mean something to the grammar depends on the tokens alone,
/// not on their spans.
pub proof fn lemma_meaningful_tokens(a: Seq<Spot>, b: Seq<Spot>)
    requires
        spot_tokens(a) == spot_tokens(b),
    ensures
        spot_tokens(meaningful(a)) == spot_tokens(meaningful(b)),
    decreases a.len(),
{
    let ta = spot_tokens(a);
    let tb = spot_tokens(b);
    assert(ta.len() == a.len());
    assert(tb.len() == b.len());
    assert(a.len() == b.len());
    if a.len() > 0 {
        let n = a.len() - 1;
        assert forall|i: int| 0 <= i < n implies spot_tokens(a.drop_last())[i] == spot_tokens(
            b.drop_last(),
        )[i] by {
            assert(ta[i] == a[i].0);
            assert(tb[i] == b[i].0);
            assert(a.drop_last()[i] == a[i]);
            assert(b.drop_last()[i] == b[i]);
        }
        assert(spot_tokens(a.drop_last()) =~= spot_tokens(b.drop_last()));
        lemma_meaningful_tokens(a.drop_last(), b.drop_last());
        assert(ta[n] == a[n].0);
        assert(tb[n] == b[n].0);
        assert(a.last().0 == b.last().0);
        if !a.last().0.is_layout() {
            assert(spot_tokens(meaningful(a)) =~= spot_tokens(meaningful(a.drop_last())).push(
                a.last().0,
            ));
            assert(spot_tokens(meaningful(b)) =~= spot_tokens(meaningful(b.drop_last())).push(
                b.last().0,
            ));
        }
    } else {
        assert(spot_tokens(meaningful(a)) =~= spot_tokens(meaningful(b)));
    }
}

/// Lexemes without errors among them are all tokens.
pub proof fn lemma_no_errors(lexemes: Seq<LexemeView>)
    requires
        lex_errors(lexemes).len() == 0,
    ensures
        forall|i: int| 0 <= i < lexemes.len() ==> (#[trigger] lexemes[i]).token is Ok,
    decreases lexemes.len(),
{
    if lexemes.len() > 0 {
        lemma_no_errors(lexemes.drop_last());
        assert forall|i: int| 0 <= i < lexemes.len() implies (#[trigger] lexemes[i]).token is Ok by {
            if i < lexemes.len() - 1 {
                assert(lexemes.drop_last()[i] == lexemes[i]);
            }
        }
    }
}

/// The tokens that `get_tokens` gives for a text whose lexemes are all
/// tokens.
pub open spec fn tokens_of(source: Seq<char>) -> Seq<TokenView> {
    Seq::new(lexemes_of(source).len(), |i: int| lexeme_tokens(lexemes_of(source))[i]->Ok_0)
}

/// A program parsed from its text, and the same program parsed from the
/// tokens of its text: where the text holds no lexical error, either both
/// are parsed or neither is, and where they are parsed the two trees
/// have the same shape.
pub proof fn lemma_parse_round_trip(source: Seq<char>)
    requires
        lex_errors(lexemes_of(source)).len() == 0,
    ensures
        parse_of(source) is Ok <==> outcome(counted_spots(tokens_of(source))) is Ok,
        parse_of(source) is Ok ==> same_shape(
            parse_of(source)->Ok_0,
            outcome(counted_spots(tokens_of(source)))->Ok_0,
        ),
{
    let lexemes = lexemes_of(source);
    lemma_no_errors(lexemes);
    let a = lexeme_spots(lexemes);
    let b = counted_spots(tokens_of(source));
    assert(spot_tokens(a) =~= spot_tokens(b)) by {
        assert forall|i: int| 0 <= i < lexemes.len() implies spot_tokens(a)[i] == spot_tokens(
            b,
        )[i] by {
            assert(lexemes[i].token is Ok);
        }
    }
    lemma_meaningful_tokens(a, b);
    let toks = spot_tokens(meaningful(a));
    match crate::grammar::p_program(toks) {
        Ok(tree) => {
            lemma_respan_keeps_shape(tree, spot_spans(meaningful(a)));
            lemma_respan_keeps_shape(tree, spot_spans(meaningful(b)));
        },
        Err(_) => {},
    }
}

} // verus!
