//! Laws of the language, proved of what a program means.

use vstd::prelude::*;
use std::ops::Range;
use crate::ast::{ExprView, Spanned};
use crate::error::ErrorView;
use crate::frame::lemma_run_keeps;
use crate::interpreter::rebound;
use crate::operators::{
    MathOperator, division_by_zero_message, incompatible_message, int_result, text_result,
};
use crate::scope::binding;
use crate::semantics::{
    Machine, Run, bound_on_top, bounded, done, entered, left, loop_end, read_name, run,
    run_block, run_call, run_for, run_for_loop, run_function, run_loop, run_operator, run_times,
    run_while,
};
use crate::value::{CallableView, HashableValueView, ObjectRef, TSFuncView, ValueView};

verus! {

/// What a loop makes of the value of its body is never a `break`.
pub proof fn lemma_loop_end(v: ValueView)
    ensures
        loop_end(v) matches Some(w) ==> w is Nil || w is EvaluatedReturn,
{
}

/// A `break` ends the loop it stands in and no other: whatever the body
/// does, the value of `loop body` is nothing or a `return`, never a
/// `break` that a loop around it could take for its own.
pub proof fn lemma_break_stays_in_loop(body: Spanned<ExprView>, m: Machine)
    ensures
        run_loop(body, m) matches Some((Ok(v), _)) ==> v is Nil || v is EvaluatedReturn,
    decreases m.budget,
{
    match run(body, m) {
        Some((Ok(v), m1)) => {
            lemma_loop_end(v);
            if loop_end(v) is None && m1.budget < m.budget {
                lemma_break_stays_in_loop(body, m1);
            }
        },
        _ => {},
    }
}

/// As [`lemma_break_stays_in_loop`], of `loop n body`.
pub proof fn lemma_break_stays_in_counted_loop(
    body: Spanned<ExprView>,
    round: int,
    n: int,
    m: Machine,
)
    ensures
        run_times(body, round, n, m) matches Some((Ok(v), _)) ==> v is Nil || v is EvaluatedReturn,
    decreases m.budget, n - round,
{
    if round < n {
        match bounded(run(body, m), m) {
            Some((Ok(v), m1)) => {
                lemma_loop_end(v);
                if loop_end(v) is None {
                    lemma_break_stays_in_counted_loop(body, round + 1, n, m1);
                }
            },
            _ => {},
        }
    }
}

/// As [`lemma_break_stays_in_loop`], of `for`.
pub proof fn lemma_break_stays_in_for_loop(
    var: Seq<char>,
    body: Spanned<ExprView>,
    i: i32,
    last: i32,
    by: i32,
    m: Machine,
)
    ensures
        run_for(var, body, i, last, by, m) matches Some((Ok(v), _)) ==> v is Nil
            || v is EvaluatedReturn,
    decreases m.budget,
{
    if i < last && m.scopes.len() > 0 {
        match run(body, bound_on_top(m, var, ValueView::Int(i))) {
            Some((Ok(v), m1)) => {
                lemma_loop_end(v);
                if loop_end(v) is None && m1.budget < m.budget {
                    lemma_break_stays_in_for_loop(var, body, i.wrapping_add(by), last, by, m1);
                }
            },
            _ => {},
        }
    }
}

/// As [`lemma_break_stays_in_loop`], of `while`.
pub proof fn lemma_break_stays_in_while_loop(
    cond: Spanned<ExprView>,
    body: Spanned<ExprView>,
    m: Machine,
)
    ensures
        run_while(cond, body, m) matches Some((Ok(v), _)) ==> v is Nil || v is EvaluatedReturn,
    decreases m.budget,
{
    match bounded(run(cond, m), m) {
        Some((Ok(c), m1)) => {
            if c == ValueView::Bool(true) {
                match bounded(run(body, m1), m1) {
                    Some((Ok(v), m2)) => {
                        lemma_loop_end(v);
                        if loop_end(v) is None && m2.budget < m.budget {
                            lemma_break_stays_in_while_loop(cond, body, m2);
                        }
                    },
                    _ => {},
                }
            }
        },
        _ => {},
    }
}

/// The node of a binary operator on two operands.
pub open spec fn operator_item(
    op: MathOperator,
    a: Spanned<ExprView>,
    b: Spanned<ExprView>,
) -> ExprView {
    match op {
        MathOperator::Addition => ExprView::Addition(Box::new(a), Box::new(b)),
        MathOperator::Subtraction => ExprView::Subtraction(Box::new(a), Box::new(b)),
        MathOperator::Multiply => ExprView::Multiply(Box::new(a), Box::new(b)),
        MathOperator::Division => ExprView::Division(Box::new(a), Box::new(b)),
        MathOperator::Eq => ExprView::Eq(Box::new(a), Box::new(b)),
        MathOperator::Neq => ExprView::Neq(Box::new(a), Box::new(b)),
        MathOperator::Lt => ExprView::Lt(Box::new(a), Box::new(b)),
        MathOperator::Gt => ExprView::Gt(Box::new(a), Box::new(b)),
        MathOperator::Lte => ExprView::Lte(Box::new(a), Box::new(b)),
        MathOperator::Gte => ExprView::Gte(Box::new(a), Box::new(b)),
    }
}

/// The state after `n` nodes were evaluated that changed nothing else.
pub open spec fn after_nodes(m: Machine, n: nat) -> Machine {
    Machine { budget: (m.budget - n) as nat, ..m }
}

/// An operator on two integers gives what [`int_result`] says: sums,
/// differences and products wrap around, quotients are truncated, and
/// comparisons give booleans. A division by zero is a type error at the
/// divisor.
pub proof fn lemma_operator_on_integers(
    op: MathOperator,
    a: Spanned<ExprView>,
    b: Spanned<ExprView>,
    span: Range<usize>,
    m: Machine,
)
    requires
        a.item is Int,
        b.item is Int,
        m.budget >= 3,
        m.scopes.len() > 0,
    ensures
        run(Spanned { item: operator_item(op, a, b), span: span }, m) == Some(
            (
                match int_result(op, a.item->Int_0, b.item->Int_0) {
                    Some(v) => Ok::<ValueView, (ErrorView, Range<usize>)>(v),
                    None => Err((ErrorView::TypeError(division_by_zero_message()), b.span)),
                },
                after_nodes(m, 3),
            ),
        ),
{
    let m1 = after_nodes(m, 1);
    let m2 = after_nodes(m, 2);
    let m3 = after_nodes(m, 3);
    assert(run(a, m1) == done(ValueView::Int(a.item->Int_0), m2));
    assert(run(b, m2) == done(ValueView::Int(b.item->Int_0), m3));
    assert(run(Spanned { item: operator_item(op, a, b), span: span }, m) == run_operator(
        a,
        b,
        op,
        m1,
    ));
}

/// An operator on two texts: `+` joins them, `==` and `!=` compare them,
/// and any other operator is a type error at the right operand.
pub proof fn lemma_operator_on_texts(
    op: MathOperator,
    a: Spanned<ExprView>,
    b: Spanned<ExprView>,
    span: Range<usize>,
    m: Machine,
)
    requires
        a.item is String,
        b.item is String,
        m.budget >= 3,
        m.scopes.len() > 0,
    ensures
        run(Spanned { item: operator_item(op, a, b), span: span }, m) == Some(
            (
                match text_result(op, a.item->String_0, b.item->String_0) {
                    Some(v) => Ok::<ValueView, (ErrorView, Range<usize>)>(v),
                    None => Err(
                        (
                            ErrorView::TypeError(
                                incompatible_message(
                                    ValueView::String(a.item->String_0),
                                    ValueView::String(b.item->String_0),
                                ),
                            ),
                            b.span,
                        ),
                    ),
                },
                after_nodes(m, 3),
            ),
        ),
{
    let m1 = after_nodes(m, 1);
    let m2 = after_nodes(m, 2);
    let m3 = after_nodes(m, 3);
    assert(run(a, m1) == done(ValueView::String(a.item->String_0), m2));
    assert(run(b, m2) == done(ValueView::String(b.item->String_0), m3));
    assert(run(Spanned { item: operator_item(op, a, b), span: span }, m) == run_operator(
        a,
        b,
        op,
        m1,
    ));
}

/// A block without expressions.
pub open spec fn empty_block(span: Range<usize>) -> Spanned<ExprView> {
    Spanned { item: ExprView::Block(Seq::empty()), span: span }
}

/// `for var i last { }` with a step of one binds the variable to `i`,
/// `i + 1`, ... in turn, and leaves it bound to the last of them, one
/// below `last`, in the innermost scope: the variable outlives the loop.
/// (The budget must reach for the rounds of the loop.)
pub proof fn lemma_for_leaves_last_value(
    var: Seq<char>,
    span: Range<usize>,
    i: i32,
    last: i32,
    m: Machine,
)
    requires
        i < last,
        m.scopes.len() > 0,
        m.budget >= last - i,
    ensures
        run_for(var, empty_block(span), i, last, 1, m) matches Some((Ok(v), after)) && v is Nil
            && after.scopes.len() == m.scopes.len() && after.scopes.last().vars.dom().contains(var)
            && after.scopes.last().vars[var] == ValueView::Int((last - 1) as i32),
    decreases last - i,
{
    let body = empty_block(span);
    let bound = bound_on_top(m, var, ValueView::Int(i));
    let spent = Machine { budget: (bound.budget - 1) as nat, ..bound };
    assert(run(body, bound) == run_block(Seq::empty(), 0, ValueView::Nil, spent));
    assert(run(body, bound) == done(ValueView::Nil, spent));
    assert(loop_end(ValueView::Nil) is None);
    assert(i.wrapping_add(1) == i + 1);
    if i + 1 < last {
        lemma_for_leaves_last_value(var, span, (i + 1) as i32, last, spent);
        let next = bound_on_top(spent, var, ValueView::Int((i + 1) as i32));
        assert(next.scopes.len() == m.scopes.len());
    } else {
        assert(run_for(var, body, (i + 1) as i32, last, 1, spent) == done(ValueView::Nil, spent));
        assert(spent.scopes.last() == rebound(
            m.scopes.last(),
            var,
            ValueView::Int(i),
        ));
    }
}

/// The state after `count` passes of the body of a `for` loop, the first of
/// them with the variable at `first`: each pass binds the variable in the
/// innermost scope, to `first`, `first + 1`, ... in turn, and runs the body
/// in the state that the pass before it left. There is no such state where
/// a pass fails, breaks or returns, or where the host decides what it does.
pub open spec fn after_passes(
    var: Seq<char>,
    body: Spanned<ExprView>,
    first: int,
    count: nat,
    m: Machine,
) -> Option<Machine>
    decreases count,
{
    if count == 0 {
        Some(m)
    } else {
        match run(body, bound_on_top(m, var, ValueView::Int(first as i32))) {
            Some((Ok(v), m1)) => if loop_end(v) is None {
                after_passes(var, body, first + 1, (count - 1) as nat, m1)
            } else {
                None
            },
            _ => None,
        }
    }
}

/// How many integers there are from `first` up to `last`, `last` left out.
pub open spec fn pass_count(first: i32, last: i32) -> nat {
    if first < last {
        (last - first) as nat
    } else {
        0
    }
}

/// With a step of one, `for` runs its body once for each integer from
/// `first` up to `last`, `last` left out, in rising order, whatever the
/// body is, as long as no pass fails, breaks or returns: before each pass
/// the variable is bound to that integer in the innermost scope, the
/// loop gives nothing, and the state it leaves is the one that the last
/// pass left. If there was a pass, the variable is still bound after the
/// loop.
pub proof fn lemma_for_runs_each_pass(
    var: Seq<char>,
    body: Spanned<ExprView>,
    first: i32,
    last: i32,
    m: Machine,
)
    requires
        m.scopes.len() > 0,
        after_passes(var, body, first as int, pass_count(first, last), m) is Some,
    ensures
        run_for(var, body, first, last, 1, m) == done(
            ValueView::Nil,
            after_passes(var, body, first as int, pass_count(first, last), m)->Some_0,
        ),
        after_passes(var, body, first as int, pass_count(first, last), m)->Some_0.scopes.len()
            == m.scopes.len(),
        first < last ==> after_passes(
            var,
            body,
            first as int,
            pass_count(first, last),
            m,
        )->Some_0.scopes.last().vars.dom().contains(var),
    decreases last - first,
{
    if first < last {
        let bound = bound_on_top(m, var, ValueView::Int(first));
        lemma_run_keeps(body, bound);
        let m1 = run(body, bound)->Some_0.1;
        assert(first.wrapping_add(1) == first + 1);
        assert(pass_count((first + 1) as i32, last) == pass_count(first, last) - 1);
        assert(bound.scopes.last().vars.dom().contains(var));
        lemma_for_runs_each_pass(var, body, (first + 1) as i32, last, m1);
        let after = after_passes(var, body, first as int, pass_count(first, last), m)->Some_0;
        if first + 1 < last {
        } else {
            assert(after == m1);
        }
    }
}

/// The whole loop `for var start end body`, without a step: where `start`
/// and `end` give the integers `first` and `last`, each is evaluated once,
/// `start` before `end`, and the passes of
/// [`lemma_for_runs_each_pass`] follow in the state that `end` left.
pub proof fn lemma_for_loop_runs_each_pass(
    var: Seq<char>,
    start: Spanned<ExprView>,
    end: Spanned<ExprView>,
    body: Spanned<ExprView>,
    first: i32,
    last: i32,
    m: Machine,
    began: Machine,
    ready: Machine,
)
    requires
        run(start, m) == done(ValueView::Int(first), began),
        run(end, began) == done(ValueView::Int(last), ready),
        ready.scopes.len() > 0,
        after_passes(var, body, first as int, pass_count(first, last), ready) is Some,
    ensures
        run_for_loop(var, start, end, None, body, m) == done(
            ValueView::Nil,
            after_passes(var, body, first as int, pass_count(first, last), ready)->Some_0,
        ),
{
    lemma_run_keeps(start, m);
    lemma_run_keeps(end, began);
    lemma_for_runs_each_pass(var, body, first, last, ready);
}

/// What reading a computed property gives, from what the call of its
/// function gives: the same value, the same state, and the same error
/// without its span.
pub open spec fn read_through(called: Run) -> Option<(Result<ValueView, ErrorView>, Machine)> {
    match called {
        Some((Ok(v), after)) => Some((Ok(v), after)),
        Some((Err((item, _)), after)) => Some((Err(item), after)),
        None => None,
    }
}

/// A field that is a computed property and holds a function is read by
/// calling the function without arguments: every read runs the function
/// anew, in the state of that moment, and gives what the function gives,
/// not the function.
pub proof fn lemma_property_runs_on_read(
    name: Seq<char>,
    object: ObjectRef,
    function: CallableView,
    m: Machine,
)
    requires
        object.id < m.objects.len(),
        binding(m.objects[object.id as int].fields, HashableValueView::String(name)) == Some(
            ValueView::Callable(function),
        ),
        m.objects[object.id as int].props.contains(name),
    ensures
        read_name(name, Some(ValueView::Object(object)), m) == read_through(
            run_call(function, Range { start: 0, end: 0 }, Seq::empty(), m),
        ),
{
}

/// A `return` in the body of a loop ends the loop at once, and the loop
/// hands the `return` on as it is: where the body gives a `return`, that is
/// what `loop body` gives, in the state that the body left.
pub proof fn lemma_return_ends_loop(body: Spanned<ExprView>, m: Machine)
    requires
        run(body, m) matches Some((Ok(v), _)) && v is EvaluatedReturn,
    ensures
        run_loop(body, m) == run(body, m),
{
}

/// A `return` that reaches the body of a function ends the call, and the
/// call gives what was returned: where the body gives a `return` of `v`,
/// the call gives `v`, and the scope of the call is gone.
pub proof fn lemma_return_ends_call(
    f: TSFuncView,
    values: Seq<ValueView>,
    m: Machine,
    v: ValueView,
    after: Machine,
)
    requires
        run(f.body, entered(f, values, m)) == done(
            ValueView::EvaluatedReturn(Box::new(v)),
            after,
        ),
    ensures
        run_function(f, values, m) == done(v, left(after)),
{
}

} // verus!
