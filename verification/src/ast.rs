//! The syntax tree: every construct is an expression, and every node carries
//! the range of the source it was read from.

use vstd::prelude::*;
use std::ops::Range;
use vstd::std_specs::cmp::PartialEqSpec;

verus! {

/// A value together with the half-open range of the source it came from.
/// Two spanned values are equal when their items are: the span is for
/// diagnostics only.
#[derive(Debug)]
pub struct Spanned<T> {
    pub item: T,
    pub span: Range<usize>,
}

impl<T> Spanned<T> {
    pub fn new(item: T, span: Range<usize>) -> (r: Self)
        ensures
            r.item == item,
            r.span == span,
    {
        Self { item, span }
    }
}

impl<T: PartialEq> PartialEq for Spanned<T> {
    fn eq(&self, other: &Self) -> (r: bool) {
        self.item == other.item
    }
}

impl<T: PartialEq> vstd::std_specs::cmp::PartialEqSpecImpl for Spanned<T> {
    open spec fn obeys_eq_spec() -> bool {
        T::obeys_eq_spec()
    }

    open spec fn eq_spec(&self, other: &Self) -> bool {
        self.item.eq_spec(&other.item)
    }
}

/// A copy of a span.
pub fn copy_span(span: &Range<usize>) -> (r: Range<usize>)
    ensures
        r == *span,
{
    Range { start: span.start, end: span.end }
}

/// One node of a program.
#[derive(Debug)]
#[allow(inconsistent_fields)]
pub enum Expression {
    /// A call: the callee and its arguments, in order.
    Call { expr: Box<Spanned<Expression>>, args: Vec<Spanned<Expression>> },
    /// `target = value`.
    Assignment { expr: Box<Spanned<Expression>>, value: Box<Spanned<Expression>> },
    /// An object literal: its `key: value` pairs, in order.
    ObjDef { object: Vec<(Spanned<Expression>, Spanned<Expression>)> },
    /// `return value`; a bare `return` carries [`Expression::Nil`].
    Return { value: Box<Spanned<Expression>> },
    Break,
    If { cond: Box<Spanned<Expression>>, body: Box<Spanned<Expression>> },
    /// `loop n body`.
    LoopFinite { iters: Box<Spanned<Expression>>, body: Box<Spanned<Expression>> },
    /// `loop body`.
    LoopInfinite { body: Box<Spanned<Expression>> },
    For {
        var: String,
        start: Box<Spanned<Expression>>,
        end: Box<Spanned<Expression>>,
        step: Option<Box<Spanned<Expression>>>,
        body: Box<Spanned<Expression>>,
    },
    While { cond: Box<Spanned<Expression>>, body: Box<Spanned<Expression>> },
    FnDef { name: String, args: Vec<String>, body: Box<Spanned<Expression>> },
    Negation(Box<Spanned<Expression>>),
    Multiply(Box<Spanned<Expression>>, Box<Spanned<Expression>>),
    Division(Box<Spanned<Expression>>, Box<Spanned<Expression>>),
    Addition(Box<Spanned<Expression>>, Box<Spanned<Expression>>),
    Subtraction(Box<Spanned<Expression>>, Box<Spanned<Expression>>),
    Eq(Box<Spanned<Expression>>, Box<Spanned<Expression>>),
    Neq(Box<Spanned<Expression>>, Box<Spanned<Expression>>),
    Lt(Box<Spanned<Expression>>, Box<Spanned<Expression>>),
    Gt(Box<Spanned<Expression>>, Box<Spanned<Expression>>),
    Lte(Box<Spanned<Expression>>, Box<Spanned<Expression>>),
    Gte(Box<Spanned<Expression>>, Box<Spanned<Expression>>),
    Int(i32),
    /// A float literal, as written; it is converted when it is evaluated.
    Float(String),
    String(String),
    Image(String),
    Key(String),
    /// A name, or one level of member access `parent.name`.
    Variable { parent: Option<Box<Spanned<Expression>>>, name: String },
    Nil,
    /// A sequence of expressions; its value is that of the last one.
    Block(Vec<Spanned<Expression>>),
}

/// The mathematical value of an [`Expression`].
#[allow(inconsistent_fields)]
pub enum ExprView {
    Call { expr: Box<Spanned<ExprView>>, args: Seq<Spanned<ExprView>> },
    Assignment { expr: Box<Spanned<ExprView>>, value: Box<Spanned<ExprView>> },
    ObjDef { object: Seq<(Spanned<ExprView>, Spanned<ExprView>)> },
    Return { value: Box<Spanned<ExprView>> },
    Break,
    If { cond: Box<Spanned<ExprView>>, body: Box<Spanned<ExprView>> },
    LoopFinite { iters: Box<Spanned<ExprView>>, body: Box<Spanned<ExprView>> },
    LoopInfinite { body: Box<Spanned<ExprView>> },
    For {
        var: Seq<char>,
        start: Box<Spanned<ExprView>>,
        end: Box<Spanned<ExprView>>,
        step: Option<Box<Spanned<ExprView>>>,
        body: Box<Spanned<ExprView>>,
    },
    While { cond: Box<Spanned<ExprView>>, body: Box<Spanned<ExprView>> },
    FnDef { name: Seq<char>, args: Seq<Seq<char>>, body: Box<Spanned<ExprView>> },
    Negation(Box<Spanned<ExprView>>),
    Multiply(Box<Spanned<ExprView>>, Box<Spanned<ExprView>>),
    Division(Box<Spanned<ExprView>>, Box<Spanned<ExprView>>),
    Addition(Box<Spanned<ExprView>>, Box<Spanned<ExprView>>),
    Subtraction(Box<Spanned<ExprView>>, Box<Spanned<ExprView>>),
    Eq(Box<Spanned<ExprView>>, Box<Spanned<ExprView>>),
    Neq(Box<Spanned<ExprView>>, Box<Spanned<ExprView>>),
    Lt(Box<Spanned<ExprView>>, Box<Spanned<ExprView>>),
    Gt(Box<Spanned<ExprView>>, Box<Spanned<ExprView>>),
    Lte(Box<Spanned<ExprView>>, Box<Spanned<ExprView>>),
    Gte(Box<Spanned<ExprView>>, Box<Spanned<ExprView>>),
    Int(i32),
    Float(Seq<char>),
    String(Seq<char>),
    Image(Seq<char>),
    Key(Seq<char>),
    Variable { parent: Option<Box<Spanned<ExprView>>>, name: Seq<char> },
    Nil,
    Block(Seq<Spanned<ExprView>>),
}

pub open spec fn spanned_expr_view(e: &Spanned<Expression>) -> Spanned<ExprView>
    decreases e, 0int,
{
    Spanned { item: expr_view(&e.item), span: e.span }
}

pub open spec fn expr_list_view(v: &Vec<Spanned<Expression>>) -> Seq<Spanned<ExprView>>
    decreases v, 0int,
{
    Seq::new(
        v.len() as nat,
        |i: int|
            if 0 <= i < v.len() {
                spanned_expr_view(&v[i])
            } else {
                arbitrary()
            },
    )
}

pub open spec fn expr_pairs_view(v: &Vec<(Spanned<Expression>, Spanned<Expression>)>) -> Seq<
    (Spanned<ExprView>, Spanned<ExprView>),
>
    decreases v, 0int,
{
    Seq::new(
        v.len() as nat,
        |i: int|
            if 0 <= i < v.len() {
                (spanned_expr_view(&v[i].0), spanned_expr_view(&v[i].1))
            } else {
                arbitrary()
            },
    )
}

pub open spec fn names_view(v: &Vec<String>) -> Seq<Seq<char>> {
    Seq::new(v.len() as nat, |i: int| v[i]@)
}

pub open spec fn boxed_view(b: &Box<Spanned<Expression>>) -> Box<Spanned<ExprView>>
    decreases b, 1int,
{
    Box::new(spanned_expr_view(&**b))
}

pub open spec fn expr_view(e: &Expression) -> ExprView
    decreases e, 0int,
{
    match e {
        Expression::Call { expr, args } => ExprView::Call {
            expr: boxed_view(expr),
            args: expr_list_view(args),
        },
        Expression::Assignment { expr, value } => ExprView::Assignment {
            expr: boxed_view(expr),
            value: boxed_view(value),
        },
        Expression::ObjDef { object } => ExprView::ObjDef { object: expr_pairs_view(object) },
        Expression::Return { value } => ExprView::Return { value: boxed_view(value) },
        Expression::Break => ExprView::Break,
        Expression::If { cond, body } => ExprView::If {
            cond: boxed_view(cond),
            body: boxed_view(body),
        },
        Expression::LoopFinite { iters, body } => ExprView::LoopFinite {
            iters: boxed_view(iters),
            body: boxed_view(body),
        },
        Expression::LoopInfinite { body } => ExprView::LoopInfinite { body: boxed_view(body) },
        Expression::For { var, start, end, step, body } => ExprView::For {
            var: var@,
            start: boxed_view(start),
            end: boxed_view(end),
            step: match step {
                Some(s) => Some(boxed_view(s)),
                None => None,
            },
            body: boxed_view(body),
        },
        Expression::While { cond, body } => ExprView::While {
            cond: boxed_view(cond),
            body: boxed_view(body),
        },
        Expression::FnDef { name, args, body } => ExprView::FnDef {
            name: name@,
            args: names_view(args),
            body: boxed_view(body),
        },
        Expression::Negation(a) => ExprView::Negation(boxed_view(a)),
        Expression::Multiply(a, b) => ExprView::Multiply(boxed_view(a), boxed_view(b)),
        Expression::Division(a, b) => ExprView::Division(boxed_view(a), boxed_view(b)),
        Expression::Addition(a, b) => ExprView::Addition(boxed_view(a), boxed_view(b)),
        Expression::Subtraction(a, b) => ExprView::Subtraction(boxed_view(a), boxed_view(b)),
        Expression::Eq(a, b) => ExprView::Eq(boxed_view(a), boxed_view(b)),
        Expression::Neq(a, b) => ExprView::Neq(boxed_view(a), boxed_view(b)),
        Expression::Lt(a, b) => ExprView::Lt(boxed_view(a), boxed_view(b)),
        Expression::Gt(a, b) => ExprView::Gt(boxed_view(a), boxed_view(b)),
        Expression::Lte(a, b) => ExprView::Lte(boxed_view(a), boxed_view(b)),
        Expression::Gte(a, b) => ExprView::Gte(boxed_view(a), boxed_view(b)),
        Expression::Int(v) => ExprView::Int(*v),
        Expression::Float(v) => ExprView::Float(v@),
        Expression::String(v) => ExprView::String(v@),
        Expression::Image(v) => ExprView::Image(v@),
        Expression::Key(v) => ExprView::Key(v@),
        Expression::Variable { parent, name } => ExprView::Variable {
            parent: match parent {
                Some(p) => Some(boxed_view(p)),
                None => None,
            },
            name: name@,
        },
        Expression::Nil => ExprView::Nil,
        Expression::Block(items) => ExprView::Block(expr_list_view(items)),
    }
}

impl View for Expression {
    type V = ExprView;

    open spec fn view(&self) -> ExprView {
        expr_view(self)
    }
}

impl View for Spanned<Expression> {
    type V = Spanned<ExprView>;

    open spec fn view(&self) -> Spanned<ExprView> {
        spanned_expr_view(self)
    }
}

/// A copy of a list of names.
pub fn clone_names(v: &Vec<String>) -> (r: Vec<String>)
    ensures
        names_view(&r) == names_view(v),
{
    let mut out: Vec<String> = Vec::new();
    let mut i: usize = 0;
    while i < v.len()
        invariant
            i <= v.len(),
            out.len() == i,
            forall|j: int| 0 <= j < i ==> out[j]@ == v[j]@,
        decreases v.len() - i,
    {
        out.push(v[i].clone());
        i += 1;
    }
    proof {
        assert(names_view(&out) =~= names_view(v));
    }
    out
}

fn clone_boxed(b: &Box<Spanned<Expression>>) -> (r: Box<Spanned<Expression>>)
    ensures
        boxed_view(&r) == boxed_view(b),
    decreases b, 1int,
{
    Box::new(clone_spanned_expr(&**b))
}

fn clone_spanned_expr(e: &Spanned<Expression>) -> (r: Spanned<Expression>)
    ensures
        r@ == e@,
    decreases e, 0int,
{
    Spanned { item: clone_expr(&e.item), span: copy_span(&e.span) }
}

fn clone_expr_list(v: &Vec<Spanned<Expression>>) -> (r: Vec<Spanned<Expression>>)
    ensures
        expr_list_view(&r) == expr_list_view(v),
    decreases v, 0int,
{
    let mut out: Vec<Spanned<Expression>> = Vec::new();
    let mut i: usize = 0;
    while i < v.len()
        invariant
            i <= v.len(),
            out.len() == i,
            forall|j: int| 0 <= j < i ==> out[j]@ == v[j]@,
        decreases v.len() - i,
    {
        let c = clone_spanned_expr(&v[i]);
        out.push(c);
        i += 1;
    }
    proof {
        assert(expr_list_view(&out) =~= expr_list_view(v));
    }
    out
}

fn clone_expr_pairs(v: &Vec<(Spanned<Expression>, Spanned<Expression>)>) -> (r: Vec<
    (Spanned<Expression>, Spanned<Expression>),
>)
    ensures
        expr_pairs_view(&r) == expr_pairs_view(v),
    decreases v, 0int,
{
    let mut out: Vec<(Spanned<Expression>, Spanned<Expression>)> = Vec::new();
    let mut i: usize = 0;
    while i < v.len()
        invariant
            i <= v.len(),
            out.len() == i,
            forall|j: int| 0 <= j < i ==> out[j].0@ == v[j].0@ && out[j].1@ == v[j].1@,
        decreases v.len() - i,
    {
        let k = clone_spanned_expr(&v[i].0);
        let w = clone_spanned_expr(&v[i].1);
        out.push((k, w));
        i += 1;
    }
    proof {
        assert(expr_pairs_view(&out) =~= expr_pairs_view(v));
    }
    out
}

fn clone_expr(e: &Expression) -> (r: Expression)
    ensures
        r@ == e@,
    decreases e, 0int,
{
    match e {
        Expression::Call { expr, args } => Expression::Call {
            expr: clone_boxed(expr),
            args: clone_expr_list(args),
        },
        Expression::Assignment { expr, value } => Expression::Assignment {
            expr: clone_boxed(expr),
            value: clone_boxed(value),
        },
        Expression::ObjDef { object } => Expression::ObjDef { object: clone_expr_pairs(object) },
        Expression::Return { value } => Expression::Return { value: clone_boxed(value) },
        Expression::Break => Expression::Break,
        Expression::If { cond, body } => Expression::If {
            cond: clone_boxed(cond),
            body: clone_boxed(body),
        },
        Expression::LoopFinite { iters, body } => Expression::LoopFinite {
            iters: clone_boxed(iters),
            body: clone_boxed(body),
        },
        Expression::LoopInfinite { body } => Expression::LoopInfinite { body: clone_boxed(body) },
        Expression::For { var, start, end, step, body } => Expression::For {
            var: var.clone(),
            start: clone_boxed(start),
            end: clone_boxed(end),
            step: match step {
                Some(s) => Some(clone_boxed(s)),
                None => None,
            },
            body: clone_boxed(body),
        },
        Expression::While { cond, body } => Expression::While {
            cond: clone_boxed(cond),
            body: clone_boxed(body),
        },
        Expression::FnDef { name, args, body } => Expression::FnDef {
            name: name.clone(),
            args: clone_names(args),
            body: clone_boxed(body),
        },
        Expression::Negation(a) => Expression::Negation(clone_boxed(a)),
        Expression::Multiply(a, b) => Expression::Multiply(clone_boxed(a), clone_boxed(b)),
        Expression::Division(a, b) => Expression::Division(clone_boxed(a), clone_boxed(b)),
        Expression::Addition(a, b) => Expression::Addition(clone_boxed(a), clone_boxed(b)),
        Expression::Subtraction(a, b) => Expression::Subtraction(clone_boxed(a), clone_boxed(b)),
        Expression::Eq(a, b) => Expression::Eq(clone_boxed(a), clone_boxed(b)),
        Expression::Neq(a, b) => Expression::Neq(clone_boxed(a), clone_boxed(b)),
        Expression::Lt(a, b) => Expression::Lt(clone_boxed(a), clone_boxed(b)),
        Expression::Gt(a, b) => Expression::Gt(clone_boxed(a), clone_boxed(b)),
        Expression::Lte(a, b) => Expression::Lte(clone_boxed(a), clone_boxed(b)),
        Expression::Gte(a, b) => Expression::Gte(clone_boxed(a), clone_boxed(b)),
        Expression::Int(v) => Expression::Int(*v),
        Expression::Float(v) => Expression::Float(v.clone()),
        Expression::String(v) => Expression::String(v.clone()),
        Expression::Image(v) => Expression::Image(v.clone()),
        Expression::Key(v) => Expression::Key(v.clone()),
        Expression::Variable { parent, name } => Expression::Variable {
            parent: match parent {
                Some(p) => Some(clone_boxed(p)),
                None => None,
            },
            name: name.clone(),
        },
        Expression::Nil => Expression::Nil,
        Expression::Block(items) => Expression::Block(clone_expr_list(items)),
    }
}

impl Clone for Expression {
    fn clone(&self) -> (r: Self)
        ensures
            r@ == self@,
    {
        clone_expr(self)
    }
}

impl Clone for Spanned<Expression> {
    fn clone(&self) -> (r: Self)
        ensures
            r@ == self@,
    {
        clone_spanned_expr(self)
    }
}

} // verus!
