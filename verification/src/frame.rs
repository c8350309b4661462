//! What no program can do to the state of its run: however a program
//! runs, the stack is as deep after it as before, no scope has lost a name
//! or changed its computed properties, only the innermost scope has gained
//! names, the budget has not grown, and the libraries are as they were.

use vstd::prelude::*;
use std::ops::Range;
use crate::ast::{ExprView, Spanned};
use crate::interpreter::{
    ReadingView, assignment_target, binds_innermost, for_bounds_of, is_sentinel,
    lemma_bound_somewhere, names_kept, stack_evolves, unbound,
};
use crate::operators::MathOperator;
use crate::semantics::{
    Machine, assigned, bound_on_top, bounded, done, entered, found, left, loop_end, read_name,
    run, run_args, run_assignment, run_block, run_call, run_counted, run_for, run_for_loop,
    run_function, run_loop, run_object, run_operator, run_root, run_times, run_while,
};
use crate::value::{CallableView, HashableValueView, TSFuncView, ValueView, key_of};

verus! {

/// Whether `after` is a state that a run can leave that began in `m`.
pub open spec fn kept(m: Machine, after: Machine) -> bool {
    &&& stack_evolves(m.scopes, after.scopes)
    &&& after.budget <= m.budget
    &&& after.libraries == m.libraries
}

pub proof fn lemma_kept_chain(a: Machine, b: Machine, c: Machine)
    requires
        kept(a, b),
        kept(b, c),
    ensures
        kept(a, c),
{
    assert forall|i: int| 0 <= i < a.scopes.len() implies (#[trigger] c.scopes[i]).props
        == a.scopes[i].props && a.scopes[i].vars.dom().subset_of(c.scopes[i].vars.dom()) by {
        assert(b.scopes[i].props == a.scopes[i].props);
        assert(a.scopes[i].vars.dom().subset_of(b.scopes[i].vars.dom()));
    }
    assert forall|i: int| 0 <= i < a.scopes.len() - 1 implies (#[trigger] c.scopes[i]).vars.dom()
        == a.scopes[i].vars.dom() by {
        assert(b.scopes[i].vars.dom() == a.scopes[i].vars.dom());
    }
}

/// Binding a name in the innermost scope is such a change.
pub proof fn lemma_kept_on_top(m: Machine, name: Seq<char>, value: ValueView)
    requires
        m.scopes.len() > 0,
    ensures
        kept(m, bound_on_top(m, name, value)),
{
}

/// An assignment to a plain name is such a change.
pub proof fn lemma_kept_assigned(m: Machine, name: Seq<char>, value: ValueView)
    requires
        m.scopes.len() > 0,
    ensures
        kept(m, assigned(m, name, value).1),
{
    if unbound(m.scopes, name) {
        assert(assignment_target(m.scopes, name, m.scopes.len() - 1));
    } else {
        lemma_bound_somewhere(m.scopes, name);
        let i = choose|i: int| binds_innermost(m.scopes, name, i);
        assert(assignment_target(m.scopes, name, i));
    }
    let at = choose|i: int| assignment_target(m.scopes, name, i);
    let after = assigned(m, name, value).1;
    assert(0 <= at < m.scopes.len());
    assert forall|i: int| 0 <= i < m.scopes.len() - 1 implies (#[trigger] after.scopes[i]).vars.dom()
        == m.scopes[i].vars.dom() by {
        if i == at {
            assert(binds_innermost(m.scopes, name, at));
            assert(after.scopes[i].vars.dom() =~= m.scopes[i].vars.dom());
        }
    }
}

/// A run of a node changes the state as a run may, and where it gives a
/// value it has used budget.
pub proof fn lemma_run_keeps(e: Spanned<ExprView>, m: Machine)
    ensures
        run(e, m) matches Some((out, after)) ==> kept(m, after) && (out is Ok ==> after.budget
            < m.budget),
    decreases m.budget, 0int, 0int,
{
    if m.budget > 0 && m.scopes.len() > 0 {
        let m1 = Machine { budget: (m.budget - 1) as nat, ..m };
        match e.item {
            ExprView::Block(items) => {
                lemma_block_keeps(items, 0, ValueView::Nil, m1);
            },
            ExprView::Call { expr, args } => {
                lemma_run_keeps(*expr, m1);
                match bounded(run(*expr, m1), m1) {
                    Some((Ok(ValueView::Callable(c)), m2)) => {
                        lemma_call_keeps(c, e.span, args, m2);
                        if run_call(c, e.span, args, m2) is Some {
                            lemma_kept_chain(m1, m2, run_call(c, e.span, args, m2)->Some_0.1);
                        }
                    },
                    _ => {},
                }
            },
            ExprView::If { cond, body } => {
                lemma_run_keeps(*cond, m1);
                match bounded(run(*cond, m1), m1) {
                    Some((Ok(c), m2)) => {
                        if c == ValueView::Bool(true) {
                            lemma_run_keeps(*body, m2);
                            if run(*body, m2) is Some {
                                lemma_kept_chain(m1, m2, run(*body, m2)->Some_0.1);
                            }
                        }
                    },
                    _ => {},
                }
            },
            ExprView::LoopInfinite { body } => {
                lemma_loop_keeps(*body, m1);
            },
            ExprView::LoopFinite { iters, body } => {
                lemma_counted_keeps(*iters, *body, m1);
            },
            ExprView::For { var, start, end, step, body } => {
                lemma_for_loop_keeps(
                    var,
                    *start,
                    *end,
                    match step {
                        Some(s) => Some(*s),
                        None => None,
                    },
                    *body,
                    m1,
                );
            },
            ExprView::While { cond, body } => {
                lemma_while_keeps(*cond, *body, m1);
            },
            ExprView::FnDef { name, args, body } => {
                lemma_kept_on_top(
                    m1,
                    name,
                    ValueView::Callable(
                        CallableView::Function(TSFuncView { body: *body, args: args }),
                    ),
                );
            },
            ExprView::Assignment { expr, value } => {
                lemma_assignment_keeps(*expr, *value, m1);
            },
            ExprView::Return { value } => {
                lemma_run_keeps(*value, m1);
            },
            ExprView::Negation(a) => {
                lemma_run_keeps(*a, m1);
            },
            ExprView::Addition(a, b) => {
                lemma_operator_keeps(*a, *b, MathOperator::Addition, m1);
            },
            ExprView::Subtraction(a, b) => {
                lemma_operator_keeps(*a, *b, MathOperator::Subtraction, m1);
            },
            ExprView::Multiply(a, b) => {
                lemma_operator_keeps(*a, *b, MathOperator::Multiply, m1);
            },
            ExprView::Division(a, b) => {
                lemma_operator_keeps(*a, *b, MathOperator::Division, m1);
            },
            ExprView::Eq(a, b) => {
                lemma_operator_keeps(*a, *b, MathOperator::Eq, m1);
            },
            ExprView::Neq(a, b) => {
                lemma_operator_keeps(*a, *b, MathOperator::Neq, m1);
            },
            ExprView::Lt(a, b) => {
                lemma_operator_keeps(*a, *b, MathOperator::Lt, m1);
            },
            ExprView::Gt(a, b) => {
                lemma_operator_keeps(*a, *b, MathOperator::Gt, m1);
            },
            ExprView::Lte(a, b) => {
                lemma_operator_keeps(*a, *b, MathOperator::Lte, m1);
            },
            ExprView::Gte(a, b) => {
                lemma_operator_keeps(*a, *b, MathOperator::Gte, m1);
            },
            ExprView::Variable { parent, name } => {
                match parent {
                    Some(p) => {
                        lemma_run_keeps(*p, m1);
                        match bounded(run(*p, m1), m1) {
                            Some((Ok(v), m2)) => {
                                lemma_read_keeps(name, Some(v), m2);
                                if read_name(name, Some(v), m2) is Some {
                                    lemma_kept_chain(m1, m2, read_name(name, Some(v), m2)->Some_0.1);
                                }
                            },
                            _ => {},
                        }
                    },
                    None => {
                        lemma_read_keeps(name, None, m1);
                    },
                }
            },
            ExprView::ObjDef { object } => {
                lemma_object_keeps(object, 0, Map::empty(), m1);
            },
            _ => {},
        }
    }
}

pub proof fn lemma_block_keeps(items: Seq<Spanned<ExprView>>, i: int, last: ValueView, m: Machine)
    ensures
        run_block(items, i, last, m) matches Some((_, after)) ==> kept(m, after),
    decreases m.budget, 5int, items.len() - i,
{
    if 0 <= i < items.len() {
        lemma_run_keeps(items[i], m);
        match bounded(run(items[i], m), m) {
            Some((Ok(v), m1)) => {
                if !is_sentinel(v) {
                    lemma_block_keeps(items, i + 1, v, m1);
                    if run_block(items, i + 1, v, m1) is Some {
                        lemma_kept_chain(m, m1, run_block(items, i + 1, v, m1)->Some_0.1);
                    }
                }
            },
            _ => {},
        }
    }
}

pub proof fn lemma_loop_keeps(body: Spanned<ExprView>, m: Machine)
    ensures
        run_loop(body, m) matches Some((_, after)) ==> kept(m, after),
    decreases m.budget, 5int, 0int,
{
    lemma_run_keeps(body, m);
    match run(body, m) {
        Some((Ok(v), m1)) => {
            if loop_end(v) is None && m1.budget < m.budget {
                lemma_loop_keeps(body, m1);
                if run_loop(body, m1) is Some {
                    lemma_kept_chain(m, m1, run_loop(body, m1)->Some_0.1);
                }
            }
        },
        _ => {},
    }
}

pub proof fn lemma_times_keeps(body: Spanned<ExprView>, round: int, n: int, m: Machine)
    ensures
        run_times(body, round, n, m) matches Some((_, after)) ==> kept(m, after),
    decreases m.budget, 5int, n - round,
{
    if round < n {
        lemma_run_keeps(body, m);
        match bounded(run(body, m), m) {
            Some((Ok(v), m1)) => {
                if loop_end(v) is None {
                    lemma_times_keeps(body, round + 1, n, m1);
                    if run_times(body, round + 1, n, m1) is Some {
                        lemma_kept_chain(m, m1, run_times(body, round + 1, n, m1)->Some_0.1);
                    }
                }
            },
            _ => {},
        }
    }
}

pub proof fn lemma_counted_keeps(iters: Spanned<ExprView>, body: Spanned<ExprView>, m: Machine)
    ensures
        run_counted(iters, body, m) matches Some((_, after)) ==> kept(m, after),
    decreases m.budget, 6int, 0int,
{
    lemma_run_keeps(iters, m);
    match bounded(run(iters, m), m) {
        Some((Ok(ValueView::Int(n)), m2)) => {
            lemma_times_keeps(body, 0, n as int, m2);
            if run_times(body, 0, n as int, m2) is Some {
                lemma_kept_chain(m, m2, run_times(body, 0, n as int, m2)->Some_0.1);
            }
        },
        _ => {},
    }
}

pub proof fn lemma_for_keeps(
    var: Seq<char>,
    body: Spanned<ExprView>,
    i: i32,
    last: i32,
    by: i32,
    m: Machine,
)
    ensures
        run_for(var, body, i, last, by, m) matches Some((_, after)) ==> kept(m, after),
    decreases m.budget, 5int, 0int,
{
    if i < last && m.scopes.len() > 0 {
        let bound = bound_on_top(m, var, ValueView::Int(i));
        lemma_kept_on_top(m, var, ValueView::Int(i));
        lemma_run_keeps(body, bound);
        match run(body, bound) {
            Some((Ok(v), m1)) => {
                lemma_kept_chain(m, bound, m1);
                if loop_end(v) is None && m1.budget < m.budget {
                    lemma_for_keeps(var, body, i.wrapping_add(by), last, by, m1);
                    let rest = run_for(var, body, i.wrapping_add(by), last, by, m1);
                    if rest is Some {
                        lemma_kept_chain(m, m1, rest->Some_0.1);
                    }
                }
            },
            Some((Err(_), m1)) => {
                lemma_kept_chain(m, bound, m1);
            },
            None => {},
        }
    }
}

pub proof fn lemma_for_loop_keeps(
    var: Seq<char>,
    start: Spanned<ExprView>,
    end: Spanned<ExprView>,
    step: Option<Spanned<ExprView>>,
    body: Spanned<ExprView>,
    m: Machine,
)
    ensures
        run_for_loop(var, start, end, step, body, m) matches Some((_, after)) ==> kept(m, after),
    decreases m.budget, 6int, 0int,
{
    lemma_run_keeps(start, m);
    match bounded(run(start, m), m) {
        Some((Ok(first), m2)) => {
            lemma_run_keeps(end, m2);
            match bounded(run(end, m2), m2) {
                Some((Ok(last), m3)) => {
                    lemma_kept_chain(m, m2, m3);
                    let stepped = match step {
                        Some(s) => bounded(run(s, m3), m3),
                        None => done(ValueView::Int(1), m3),
                    };
                    match step {
                        Some(s) => {
                            lemma_run_keeps(s, m3);
                        },
                        None => {},
                    }
                    match stepped {
                        Some((Ok(by), m4)) => {
                            lemma_kept_chain(m, m3, m4);
                            match for_bounds_of(first, last, by) {
                                Ok((a, b, c)) => {
                                    lemma_for_keeps(var, body, a, b, c, m4);
                                    if run_for(var, body, a, b, c, m4) is Some {
                                        lemma_kept_chain(
                                            m,
                                            m4,
                                            run_for(var, body, a, b, c, m4)->Some_0.1,
                                        );
                                    }
                                },
                                Err(_) => {},
                            }
                        },
                        Some((Err(_), m4)) => {
                            lemma_kept_chain(m, m3, m4);
                        },
                        None => {},
                    }
                },
                Some((Err(_), m3)) => {
                    lemma_kept_chain(m, m2, m3);
                },
                None => {},
            }
        },
        _ => {},
    }
}

pub proof fn lemma_while_keeps(cond: Spanned<ExprView>, body: Spanned<ExprView>, m: Machine)
    ensures
        run_while(cond, body, m) matches Some((_, after)) ==> kept(m, after),
    decreases m.budget, 5int, 0int,
{
    lemma_run_keeps(cond, m);
    match bounded(run(cond, m), m) {
        Some((Ok(c), m1)) => {
            if c == ValueView::Bool(true) {
                lemma_run_keeps(body, m1);
                match bounded(run(body, m1), m1) {
                    Some((Ok(v), m2)) => {
                        lemma_kept_chain(m, m1, m2);
                        if loop_end(v) is None && m2.budget < m.budget {
                            lemma_while_keeps(cond, body, m2);
                            if run_while(cond, body, m2) is Some {
                                lemma_kept_chain(m, m2, run_while(cond, body, m2)->Some_0.1);
                            }
                        }
                    },
                    Some((Err(_), m2)) => {
                        lemma_kept_chain(m, m1, m2);
                    },
                    None => {},
                }
            }
        },
        _ => {},
    }
}

pub proof fn lemma_assignment_keeps(target: Spanned<ExprView>, value: Spanned<ExprView>, m: Machine)
    requires
        m.scopes.len() > 0,
    ensures
        run_assignment(target, value, m) matches Some((_, after)) ==> kept(m, after),
    decreases m.budget, 5int, 0int,
{
    match target.item {
        ExprView::Variable { parent, name } => {
            lemma_run_keeps(value, m);
            match bounded(run(value, m), m) {
                Some((Ok(v), m1)) => {
                    match parent {
                        Some(p) => {
                            lemma_run_keeps(*p, m1);
                            if run(*p, m1) is Some {
                                lemma_kept_chain(m, m1, run(*p, m1)->Some_0.1);
                            }
                        },
                        None => {
                            lemma_kept_assigned(m1, name, v);
                            lemma_kept_chain(m, m1, assigned(m1, name, v).1);
                        },
                    }
                },
                _ => {},
            }
        },
        _ => {},
    }
}

pub proof fn lemma_object_keeps(
    pairs: Seq<(Spanned<ExprView>, Spanned<ExprView>)>,
    i: int,
    made: Map<HashableValueView, ValueView>,
    m: Machine,
)
    ensures
        run_object(pairs, i, made, m) matches Some((_, after)) ==> kept(m, after),
    decreases m.budget, 5int, pairs.len() - i,
{
    if 0 <= i < pairs.len() {
        lemma_run_keeps(pairs[i].0, m);
        match bounded(run(pairs[i].0, m), m) {
            Some((Ok(k), m1)) => {
                match key_of(k) {
                    Ok(key) => {
                        lemma_run_keeps(pairs[i].1, m1);
                        match bounded(run(pairs[i].1, m1), m1) {
                            Some((Ok(v), m2)) => {
                                lemma_kept_chain(m, m1, m2);
                                lemma_object_keeps(pairs, i + 1, made.insert(key, v), m2);
                                let rest = run_object(pairs, i + 1, made.insert(key, v), m2);
                                if rest is Some {
                                    lemma_kept_chain(m, m2, rest->Some_0.1);
                                }
                            },
                            Some((Err(_), m2)) => {
                                lemma_kept_chain(m, m1, m2);
                            },
                            None => {},
                        }
                    },
                    Err(_) => {},
                }
            },
            _ => {},
        }
    }
}

pub proof fn lemma_read_keeps(name: Seq<char>, parent: Option<ValueView>, m: Machine)
    ensures
        read_name(name, parent, m) matches Some((_, after)) ==> kept(m, after),
    decreases m.budget, 3int, 0int,
{
    match found(name, parent, m) {
        Ok(ReadingView::Invoke(c)) => {
            lemma_call_keeps(c, Range { start: 0, end: 0 }, Seq::empty(), m);
        },
        _ => {},
    }
}

pub proof fn lemma_args_keeps(
    args: Seq<Spanned<ExprView>>,
    i: int,
    values: Seq<ValueView>,
    m: Machine,
)
    ensures
        run_args(args, i, values, m) matches Some((_, after)) ==> kept(m, after),
    decreases m.budget, 1int, args.len() - i,
{
    if 0 <= i < args.len() {
        lemma_run_keeps(args[i], m);
        match bounded(run(args[i], m), m) {
            Some((Ok(v), m1)) => {
                lemma_args_keeps(args, i + 1, values.push(v), m1);
                let rest = run_args(args, i + 1, values.push(v), m1);
                if rest is Some {
                    lemma_kept_chain(m, m1, rest->Some_0.1);
                }
            },
            _ => {},
        }
    }
}

/// A call of a function of the program leaves every scope of the stack
/// with the names it had: what the function binds that was not bound
/// before is bound in the scope of the call, and gone with it.
pub proof fn lemma_function_keeps_names(f: TSFuncView, values: Seq<ValueView>, m: Machine)
    ensures
        run_function(f, values, m) matches Some((_, after)) ==> names_kept(m.scopes, after.scopes)
            && kept(m, after),
    decreases m.budget, 2int, 0int,
{
    let inside = entered(f, values, m);
    lemma_run_keeps(f.body, inside);
    match run(f.body, inside) {
        Some((_, m2)) => {
            let after = left(m2);
            assert forall|i: int| 0 <= i < m.scopes.len() implies (#[trigger] after.scopes[i]).props
                == m.scopes[i].props && after.scopes[i].vars.dom() == m.scopes[i].vars.dom() by {
                assert(after.scopes[i] == m2.scopes[i]);
                assert(inside.scopes[i] == m.scopes[i]);
            }
        },
        None => {},
    }
}

pub proof fn lemma_call_keeps(
    callable: CallableView,
    span: Range<usize>,
    args: Seq<Spanned<ExprView>>,
    m: Machine,
)
    ensures
        run_call(callable, span, args, m) matches Some((_, after)) ==> kept(m, after),
    decreases m.budget, 2int, 1int,
{
    lemma_args_keeps(args, 0, Seq::empty(), m);
    match run_args(args, 0, Seq::empty(), m) {
        Some((Ok(values), m1)) => {
            match callable {
                CallableView::NativeFunc(f) => {},
                CallableView::Function(f) => {
                    if args.len() == f.args.len() && m1.budget <= m.budget {
                        lemma_function_keeps_names(f, values, m1);
                        if run_function(f, values, m1) is Some {
                            lemma_kept_chain(m, m1, run_function(f, values, m1)->Some_0.1);
                        }
                    }
                },
            }
        },
        _ => {},
    }
}

pub proof fn lemma_operator_keeps(
    a: Spanned<ExprView>,
    b: Spanned<ExprView>,
    op: MathOperator,
    m: Machine,
)
    ensures
        run_operator(a, b, op, m) matches Some((_, after)) ==> kept(m, after),
    decreases m.budget, 1int, 0int,
{
    lemma_run_keeps(a, m);
    match bounded(run(a, m), m) {
        Some((Ok(x), m1)) => {
            lemma_run_keeps(b, m1);
            if run(b, m1) is Some {
                lemma_kept_chain(m, m1, run(b, m1)->Some_0.1);
            }
        },
        _ => {},
    }
}

/// The meaning of a program asks of every step that it leave no more
/// budget than it was given. No step fails that: the demand cuts nothing
/// off.
pub proof fn lemma_budget_never_grows(e: Spanned<ExprView>, m: Machine)
    ensures
        bounded(run(e, m), m) == run(e, m),
{
    lemma_run_keeps(e, m);
}

/// A whole program changes the state as a run may.
pub proof fn lemma_root_keeps(e: Spanned<ExprView>, m: Machine)
    ensures
        run_root(e, m) matches Some((_, after)) ==> kept(m, after),
{
    lemma_run_keeps(e, m);
}

} // verus!
