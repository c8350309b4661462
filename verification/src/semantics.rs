//! What a program means: the value it gives and the state it leaves, as
//! far as the program itself decides them.
//!
//! A run is described by a function from a node and a state to an outcome
//! and a state. Where the host takes part (a function of a library of the
//! host is called, a line is read, a number is drawn, a float is read,
//! computed or shown) the program does not decide the outcome, and the
//! function gives `None`.

use vstd::prelude::*;
use std::ops::Range;
use crate::ast::{ExprView, Spanned};
use crate::error::{ErrorView, RuntimeErrorView};
use crate::interpreter::{
    ForFault, LoopFlowView, ReadingView, assignment_target, binds_innermost, for_bounds_of,
    is_sentinel, loop_flow_of, native_outcome_of, not_object_message, parameters_bound,
    reading_of, rebound, unbound, unwrapped,
};
use crate::stdlib::std_answer;
use crate::operators::{MathOperator, math_result, negation_result, with_span};
use crate::scope::{ScopeView, TSObjectView, binding};
use crate::value::{
    CallableView, HashableValueView, NativeFuncView, ObjectRef, TSFuncView, ValueView, key_of,
    text_of,
};

verus! {

/// The state of a run: the stack of scopes, the objects, how many more
/// nodes may be evaluated, and the libraries.
pub struct Machine {
    pub scopes: Seq<ScopeView>,
    pub objects: Seq<TSObjectView>,
    pub budget: nat,
    /// The libraries that were imported, by name, and of each whether it is
    /// the base library.
    pub libraries: Seq<(Seq<char>, bool)>,
}

/// A value, or an error and where it arose.
pub type Outcome = Result<ValueView, (ErrorView, Range<usize>)>;

/// What a run gives and the state it leaves; `None` where the host decides.
pub type Run = Option<(Outcome, Machine)>;

pub open spec fn done(v: ValueView, m: Machine) -> Run {
    Some((Ok(v), m))
}

pub open spec fn failed(item: ErrorView, span: Range<usize>, m: Machine) -> Run {
    Some((Err((item, span)), m))
}

/// A run that left no more budget than it was given.
pub open spec fn bounded(r: Run, m: Machine) -> Run {
    match r {
        Some((_, after)) => if after.budget <= m.budget {
            r
        } else {
            None
        },
        None => None,
    }
}

/// The state with a name bound in the innermost scope.
pub open spec fn bound_on_top(m: Machine, name: Seq<char>, value: ValueView) -> Machine {
    Machine {
        scopes: m.scopes.update(m.scopes.len() - 1, rebound(m.scopes.last(), name, value)),
        ..m
    }
}

/// The value of a node and the state after it.
pub open spec fn run(e: Spanned<ExprView>, m: Machine) -> Run
    decreases m.budget, 0int, 0int,
{
    if m.budget == 0 {
        failed(ErrorView::Interrupted, e.span, m)
    } else if m.scopes.len() == 0 {
        None
    } else {
        let m1 = Machine { budget: (m.budget - 1) as nat, ..m };
        match e.item {
            ExprView::Block(items) => run_block(items, 0, ValueView::Nil, m1),
            ExprView::Call { expr, args } => match bounded(run(*expr, m1), m1) {
                Some((Ok(ValueView::Callable(c)), m2)) => run_call(c, e.span, args, m2),
                Some((Ok(other), m2)) => match text_of(other) {
                    Some(t) => failed(ErrorView::ThisCannotBeCalled(t), e.span, m2),
                    None => None,
                },
                Some((Err(x), m2)) => Some((Err(x), m2)),
                None => None,
            },
            ExprView::If { cond, body } => match bounded(run(*cond, m1), m1) {
                Some((Ok(c), m2)) => if c == ValueView::Bool(true) {
                    run(*body, m2)
                } else {
                    done(ValueView::Nil, m2)
                },
                Some((Err(x), m2)) => Some((Err(x), m2)),
                None => None,
            },
            ExprView::LoopInfinite { body } => run_loop(*body, m1),
            ExprView::LoopFinite { iters, body } => run_counted(*iters, *body, m1),
            ExprView::For { var, start, end, step, body } => run_for_loop(
                var,
                *start,
                *end,
                match step {
                    Some(s) => Some(*s),
                    None => None,
                },
                *body,
                m1,
            ),
            ExprView::While { cond, body } => run_while(*cond, *body, m1),
            ExprView::FnDef { name, args, body } => done(
                ValueView::Nil,
                bound_on_top(
                    m1,
                    name,
                    ValueView::Callable(
                        CallableView::Function(TSFuncView { body: *body, args: args }),
                    ),
                ),
            ),
            ExprView::Assignment { expr, value } => run_assignment(*expr, *value, m1),
            ExprView::Return { value } => match run(*value, m1) {
                Some((Ok(v), m2)) => done(ValueView::EvaluatedReturn(Box::new(v)), m2),
                Some((Err(x), m2)) => Some((Err(x), m2)),
                None => None,
            },
            ExprView::Break => done(ValueView::Break, m1),
            ExprView::Negation(a) => match run(*a, m1) {
                Some((Ok(v), m2)) => match negation_result(v) {
                    Ok(w) => done(w, m2),
                    Err(x) => failed(x, e.span, m2),
                },
                Some((Err(x), m2)) => Some((Err(x), m2)),
                None => None,
            },
            ExprView::Addition(a, b) => run_operator(*a, *b, MathOperator::Addition, m1),
            ExprView::Subtraction(a, b) => run_operator(*a, *b, MathOperator::Subtraction, m1),
            ExprView::Multiply(a, b) => run_operator(*a, *b, MathOperator::Multiply, m1),
            ExprView::Division(a, b) => run_operator(*a, *b, MathOperator::Division, m1),
            ExprView::Eq(a, b) => run_operator(*a, *b, MathOperator::Eq, m1),
            ExprView::Neq(a, b) => run_operator(*a, *b, MathOperator::Neq, m1),
            ExprView::Lt(a, b) => run_operator(*a, *b, MathOperator::Lt, m1),
            ExprView::Gt(a, b) => run_operator(*a, *b, MathOperator::Gt, m1),
            ExprView::Lte(a, b) => run_operator(*a, *b, MathOperator::Lte, m1),
            ExprView::Gte(a, b) => run_operator(*a, *b, MathOperator::Gte, m1),
            ExprView::Int(v) => done(ValueView::Int(v), m1),
            ExprView::Float(_) => None,
            ExprView::String(v) => done(ValueView::String(v), m1),
            ExprView::Image(v) => done(ValueView::Image(v), m1),
            ExprView::Key(v) => done(ValueView::Key(v), m1),
            ExprView::Variable { parent, name } => {
                let object: Option<(Result<Option<ValueView>, (ErrorView, Range<usize>)>, Machine)> =
                    match parent {
                    Some(p) => match bounded(run(*p, m1), m1) {
                        Some((Ok(v), m2)) => Some((Ok(Some(v)), m2)),
                        Some((Err(x), m2)) => Some((Err(x), m2)),
                        None => None,
                    },
                    None => Some((Ok(None), m1)),
                };
                match object {
                    Some((Ok(parent_value), m2)) => match read_name(name, parent_value, m2) {
                        Some((Ok(v), m3)) => done(v, m3),
                        Some((Err(item), m3)) => failed(item, e.span, m3),
                        None => None,
                    },
                    Some((Err(x), m2)) => Some((Err(x), m2)),
                    None => None,
                }
            },
            ExprView::ObjDef { object } => run_object(object, 0, Map::empty(), m1),
            ExprView::Nil => done(ValueView::Nil, m1),
        }
    }
}

/// The expressions of a block from the `i`th on, after `last` was the value
/// of the one before. A `return` or a `break` ends the block and is its
/// value; else the value of the last expression is.
pub open spec fn run_block(
    items: Seq<Spanned<ExprView>>,
    i: int,
    last: ValueView,
    m: Machine,
) -> Run
    decreases m.budget, 5int, items.len() - i,
{
    if i < 0 || i >= items.len() {
        done(last, m)
    } else {
        match bounded(run(items[i], m), m) {
            Some((Ok(v), m1)) => if is_sentinel(v) {
                done(v, m1)
            } else {
                run_block(items, i + 1, v, m1)
            },
            Some((Err(x), m1)) => Some((Err(x), m1)),
            None => None,
        }
    }
}

/// What a loop does with the value of its body: nothing on a `break`,
/// the `return` on a `return`, and `None` where the loop goes on.
pub open spec fn loop_end(v: ValueView) -> Option<ValueView> {
    match loop_flow_of(v) {
        LoopFlowView::Stop => Some(ValueView::Nil),
        LoopFlowView::Return(w) => Some(w),
        LoopFlowView::Continue => None,
    }
}

/// `loop body`: the body, again and again, until it breaks or returns.
pub open spec fn run_loop(body: Spanned<ExprView>, m: Machine) -> Run
    decreases m.budget, 5int, 0int,
{
    match run(body, m) {
        Some((Ok(v), m1)) => match loop_end(v) {
            Some(w) => done(w, m1),
            None => if m1.budget < m.budget {
                run_loop(body, m1)
            } else {
                None
            },
        },
        Some((Err(x), m1)) => Some((Err(x), m1)),
        None => None,
    }
}

/// `loop count body`: the count is evaluated once and must be an integer;
/// the body runs that many times, and not at all for a count below one.
pub open spec fn run_counted(iters: Spanned<ExprView>, body: Spanned<ExprView>, m: Machine) -> Run
    decreases m.budget, 6int, 0int,
{
    match bounded(run(iters, m), m) {
        Some((Ok(ValueView::Int(n)), m2)) => run_times(body, 0, n as int, m2),
        Some((Ok(_), m2)) => failed(ErrorView::InvalidIterationCount, iters.span, m2),
        Some((Err(x), m2)) => Some((Err(x), m2)),
        None => None,
    }
}

/// `for var start end step body`: start, end and step are evaluated once,
/// in this order, and must be integers; the step is one where it is left
/// out.
pub open spec fn run_for_loop(
    var: Seq<char>,
    start: Spanned<ExprView>,
    end: Spanned<ExprView>,
    step: Option<Spanned<ExprView>>,
    body: Spanned<ExprView>,
    m: Machine,
) -> Run
    decreases m.budget, 6int, 0int,
{
    match bounded(run(start, m), m) {
        Some((Ok(first), m2)) => match bounded(run(end, m2), m2) {
            Some((Ok(last), m3)) => {
                let stepped = match step {
                    Some(s) => bounded(run(s, m3), m3),
                    None => done(ValueView::Int(1), m3),
                };
                match stepped {
                    Some((Ok(by), m4)) => match for_bounds_of(first, last, by) {
                        Ok((a, b, c)) => run_for(var, body, a, b, c, m4),
                        Err(ForFault::Start) => failed(ErrorView::InvalidForStart, start.span, m4),
                        Err(ForFault::End) => failed(ErrorView::InvalidForEnd, end.span, m4),
                        Err(ForFault::Step) => failed(
                            ErrorView::InvalidForStep,
                            match step {
                                Some(s) => s.span,
                                None => start.span,
                            },
                            m4,
                        ),
                    },
                    Some((Err(x), m4)) => Some((Err(x), m4)),
                    None => None,
                }
            },
            Some((Err(x), m3)) => Some((Err(x), m3)),
            None => None,
        },
        Some((Err(x), m2)) => Some((Err(x), m2)),
        None => None,
    }
}

/// `loop n body`, after the body ran `round` times.
pub open spec fn run_times(body: Spanned<ExprView>, round: int, n: int, m: Machine) -> Run
    decreases m.budget, 5int, n - round,
{
    if round < n {
        match bounded(run(body, m), m) {
            Some((Ok(v), m1)) => match loop_end(v) {
                Some(w) => done(w, m1),
                None => run_times(body, round + 1, n, m1),
            },
            Some((Err(x), m1)) => Some((Err(x), m1)),
            None => None,
        }
    } else {
        done(ValueView::Nil, m)
    }
}

/// `for`, from the value `i` of the variable on: as long as `i` is below
/// `last` the variable is bound to `i` in the innermost scope, the body
/// runs, and `by` is added to `i`.
pub open spec fn run_for(
    var: Seq<char>,
    body: Spanned<ExprView>,
    i: i32,
    last: i32,
    by: i32,
    m: Machine,
) -> Run
    decreases m.budget, 5int, 0int,
{
    if i < last {
        if m.scopes.len() == 0 {
            None
        } else {
            match run(body, bound_on_top(m, var, ValueView::Int(i))) {
                Some((Ok(v), m1)) => match loop_end(v) {
                    Some(w) => done(w, m1),
                    None => if m1.budget < m.budget {
                        run_for(var, body, i.wrapping_add(by), last, by, m1)
                    } else {
                        None
                    },
                },
                Some((Err(x), m1)) => Some((Err(x), m1)),
                None => None,
            }
        }
    } else {
        done(ValueView::Nil, m)
    }
}

/// `while cond body`: the body as long as the condition gives `true`.
pub open spec fn run_while(cond: Spanned<ExprView>, body: Spanned<ExprView>, m: Machine) -> Run
    decreases m.budget, 5int, 0int,
{
    match bounded(run(cond, m), m) {
        Some((Ok(c), m1)) => if c == ValueView::Bool(true) {
            match bounded(run(body, m1), m1) {
                Some((Ok(v), m2)) => match loop_end(v) {
                    Some(w) => done(w, m2),
                    None => if m2.budget < m.budget {
                        run_while(cond, body, m2)
                    } else {
                        None
                    },
                },
                Some((Err(x), m2)) => Some((Err(x), m2)),
                None => None,
            }
        } else {
            done(ValueView::Nil, m1)
        },
        Some((Err(x), m1)) => Some((Err(x), m1)),
        None => None,
    }
}

/// What a replaced binding gives back: the value, or nothing.
pub open spec fn value_or_nil(v: Option<ValueView>) -> ValueView {
    match v {
        Some(x) => x,
        None => ValueView::Nil,
    }
}

/// The state after an assignment to a plain name, which writes to the
/// innermost scope that binds the name, or to the innermost scope of all.
pub open spec fn assigned(m: Machine, name: Seq<char>, value: ValueView) -> (ValueView, Machine) {
    let at = choose|i: int| assignment_target(m.scopes, name, i);
    (
        value_or_nil(binding(m.scopes[at].vars, name)),
        Machine { scopes: m.scopes.update(at, rebound(m.scopes[at], name, value)), ..m },
    )
}

/// `target = value`. The value is evaluated first. A plain name is
/// assigned in the scopes; `$parent.$name` sets the field of an object.
pub open spec fn run_assignment(
    target: Spanned<ExprView>,
    value: Spanned<ExprView>,
    m: Machine,
) -> Run
    decreases m.budget, 5int, 0int,
{
    match target.item {
        ExprView::Variable { parent, name } => match bounded(run(value, m), m) {
            Some((Ok(v), m1)) => match parent {
                Some(p) => match run(*p, m1) {
                    Some((Ok(ValueView::Object(o)), m2)) => if o.id < m2.objects.len() {
                        let old_object = m2.objects[o.id as int];
                        done(
                            value_or_nil(
                                binding(old_object.fields, HashableValueView::String(name)),
                            ),
                            Machine {
                                objects: m2.objects.update(
                                    o.id as int,
                                    TSObjectView {
                                        fields: old_object.fields.insert(
                                            HashableValueView::String(name),
                                            v,
                                        ),
                                        props: old_object.props,
                                    },
                                ),
                                ..m2
                            },
                        )
                    } else {
                        failed(ErrorView::TypeError(not_object_message()), target.span, m2)
                    },
                    Some((Ok(_), m2)) => failed(
                        ErrorView::TypeError(not_object_message()),
                        target.span,
                        m2,
                    ),
                    Some((Err(x), m2)) => Some((Err(x), m2)),
                    None => None,
                },
                None => done(assigned(m1, name, v).0, assigned(m1, name, v).1),
            },
            Some((Err(x), m1)) => Some((Err(x), m1)),
            None => None,
        },
        _ => failed(ErrorView::ThisIsNotAssignable, target.span, m),
    }
}

/// An object literal from its `i`th field on, after `made` holds the
/// fields before. Key and value of a field are evaluated in this order;
/// a later field with the key of an earlier one takes its place.
pub open spec fn run_object(
    pairs: Seq<(Spanned<ExprView>, Spanned<ExprView>)>,
    i: int,
    made: Map<HashableValueView, ValueView>,
    m: Machine,
) -> Run
    decreases m.budget, 5int, pairs.len() - i,
{
    if i < 0 || i >= pairs.len() {
        done(
            ValueView::Object(ObjectRef { id: m.objects.len() as usize }),
            Machine {
                objects: m.objects.push(TSObjectView { fields: made, props: Set::empty() }),
                ..m
            },
        )
    } else {
        match bounded(run(pairs[i].0, m), m) {
            Some((Ok(k), m1)) => match key_of(k) {
                Ok(key) => match bounded(run(pairs[i].1, m1), m1) {
                    Some((Ok(v), m2)) => run_object(pairs, i + 1, made.insert(key, v), m2),
                    Some((Err(x), m2)) => Some((Err(x), m2)),
                    None => None,
                },
                Err(e) => failed(ErrorView::RuntimeError(e), pairs[i].0.span, m1),
            },
            Some((Err(x), m1)) => Some((Err(x), m1)),
            None => None,
        }
    }
}

/// What a name is bound to, by the state alone: in the object where one is
/// given, and else in the innermost scope that binds the name.
pub open spec fn found(name: Seq<char>, parent: Option<ValueView>, m: Machine) -> Result<
    ReadingView,
    ErrorView,
> {
    let undefined = ErrorView::RuntimeError(RuntimeErrorView::InvalidIdentifier(name));
    match parent {
        Some(ValueView::Object(o)) => if o.id < m.objects.len() {
            match binding(m.objects[o.id as int].fields, HashableValueView::String(name)) {
                Some(stored) => reading_of(stored, m.objects[o.id as int].props.contains(name)),
                None => Err(undefined),
            }
        } else {
            Err(ErrorView::TypeError(not_object_message()))
        },
        Some(_) => Err(ErrorView::TypeError(not_object_message())),
        None => if unbound(m.scopes, name) {
            Err(undefined)
        } else {
            let at = choose|i: int| binds_innermost(m.scopes, name, i);
            reading_of(m.scopes[at].vars[name], m.scopes[at].props.contains(name))
        },
    }
}

/// Reading a name: its value, and for a computed property what the
/// property's function gives when it is called without arguments.
pub open spec fn read_name(name: Seq<char>, parent: Option<ValueView>, m: Machine) -> Option<
    (Result<ValueView, ErrorView>, Machine),
>
    decreases m.budget, 3int, 0int,
{
    match found(name, parent, m) {
        Err(e) => Some((Err(e), m)),
        Ok(ReadingView::Value(v)) => Some((Ok(v), m)),
        Ok(ReadingView::Invoke(c)) => match run_call(
            c,
            Range { start: 0, end: 0 },
            Seq::empty(),
            m,
        ) {
            Some((Ok(v), m1)) => Some((Ok(v), m1)),
            Some((Err((item, _)), m1)) => Some((Err(item), m1)),
            None => None,
        },
    }
}

/// The arguments of a call from the `i`th on, evaluated in order in the
/// caller's scope.
pub open spec fn run_args(
    args: Seq<Spanned<ExprView>>,
    i: int,
    values: Seq<ValueView>,
    m: Machine,
) -> Option<(Result<Seq<ValueView>, (ErrorView, Range<usize>)>, Machine)>
    decreases m.budget, 1int, args.len() - i,
{
    if i < 0 || i >= args.len() {
        Some((Ok(values), m))
    } else {
        match bounded(run(args[i], m), m) {
            Some((Ok(v), m1)) => run_args(args, i + 1, values.push(v), m1),
            Some((Err(x), m1)) => Some((Err(x), m1)),
            None => None,
        }
    }
}

/// The state in which the body of a function begins: a new scope on the
/// stack, which binds the parameters to the arguments.
pub open spec fn entered(f: TSFuncView, values: Seq<ValueView>, m: Machine) -> Machine {
    Machine {
        scopes: m.scopes.push(
            ScopeView { vars: parameters_bound(f.args, values), props: Set::empty() },
        ),
        ..m
    }
}

/// The state after a call, from the state in which the body ended: the
/// scope of the call is gone.
pub open spec fn left(m: Machine) -> Machine {
    Machine { scopes: m.scopes.drop_last(), ..m }
}

/// A function of the program, run on evaluated arguments: the body runs in
/// a new scope that binds the parameters, the scope is gone when the body
/// ends, and a `return` of the body is the value of the call.
pub open spec fn run_function(f: TSFuncView, values: Seq<ValueView>, m: Machine) -> Run
    decreases m.budget, 2int, 0int,
{
    let inside = entered(f, values, m);
    match run(f.body, inside) {
        Some((out, m2)) => Some(
            (
                match out {
                    Ok(v) => Ok(unwrapped(v)),
                    Err(x) => Err(x),
                },
                left(m2),
            ),
        ),
        None => None,
    }
}

/// Whether `i` is the first place of the table that holds the library.
pub open spec fn holds_library(table: Seq<(Seq<char>, bool)>, name: Seq<char>, i: int) -> bool {
    &&& 0 <= i < table.len()
    &&& table[i].0 == name
    &&& forall|j: int| 0 <= j < i ==> (#[trigger] table[j]).0 != name
}

/// Whether the table holds no library of the name.
pub open spec fn no_library(table: Seq<(Seq<char>, bool)>, name: Seq<char>) -> bool {
    forall|j: int| 0 <= j < table.len() ==> (#[trigger] table[j]).0 != name
}

/// A native function, run on evaluated arguments. A function of a library
/// that was not imported is an error at the call. A function of the base
/// library gives what [`std_answer`] says, where the arguments decide it.
/// What the function of another library gives, that library decides.
pub open spec fn run_native(
    f: NativeFuncView,
    span: Range<usize>,
    values: Seq<ValueView>,
    m: Machine,
) -> Run {
    if no_library(m.libraries, f.library) {
        failed(
            ErrorView::RuntimeError(RuntimeErrorView::NativeLibraryError(f.library)),
            span,
            m,
        )
    } else {
        let at = choose|i: int| holds_library(m.libraries, f.library, i);
        if m.libraries[at].1 {
            match std_answer(f.name, values) {
                Some(answer) => Some((native_outcome_of(answer, span), m)),
                None => None,
            }
        } else {
            None
        }
    }
}

/// A call. The arguments are evaluated in the caller's scope, in order. A
/// function of the program must get as many arguments as it has
/// parameters, and runs on them; a native function is run by its library.
pub open spec fn run_call(
    callable: CallableView,
    span: Range<usize>,
    args: Seq<Spanned<ExprView>>,
    m: Machine,
) -> Run
    decreases m.budget, 2int, 1int,
{
    match callable {
        CallableView::NativeFunc(f) => match run_args(args, 0, Seq::empty(), m) {
            Some((Ok(values), m1)) => run_native(f, span, values, m1),
            Some((Err(x), m1)) => Some((Err(x), m1)),
            None => None,
        },
        CallableView::Function(f) => if args.len() != f.args.len() {
            failed(
                ErrorView::RuntimeError(
                    RuntimeErrorView::InvalidArgCount(args.len() as usize, f.args.len() as usize),
                ),
                span,
                m,
            )
        } else {
            match run_args(args, 0, Seq::empty(), m) {
                Some((Ok(values), m1)) => if m1.budget <= m.budget {
                    run_function(f, values, m1)
                } else {
                    None
                },
                Some((Err(x), m1)) => Some((Err(x), m1)),
                None => None,
            }
        },
    }
}

/// A binary operator: both operands are evaluated, the left one first, and
/// the operator is applied to what they gave.
pub open spec fn run_operator(
    a: Spanned<ExprView>,
    b: Spanned<ExprView>,
    op: MathOperator,
    m: Machine,
) -> Run
    decreases m.budget, 1int, 0int,
{
    match bounded(run(a, m), m) {
        Some((Ok(x), m1)) => match run(b, m1) {
            Some((Ok(y), m2)) => match math_result(op, x, y) {
                Some(res) => Some((with_span(res, a.span, b.span), m2)),
                None => None,
            },
            Some((Err(e), m2)) => Some((Err(e), m2)),
            None => None,
        },
        Some((Err(e), m1)) => Some((Err(e), m1)),
        None => None,
    }
}

/// A whole program: its root node, and a `return` at the top taken off.
pub open spec fn run_root(e: Spanned<ExprView>, m: Machine) -> Run {
    match run(e, m) {
        Some((Ok(v), m1)) => done(unwrapped(v), m1),
        Some((Err(x), m1)) => Some((Err(x), m1)),
        None => None,
    }
}

} // verus!
