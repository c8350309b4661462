//! The unary and binary operators on values.

use vstd::prelude::*;
use vstd::string::StringExecFns;
use std::ops::Range;
use crate::ast::Spanned;
use crate::error::{Error, ErrorView};
use crate::value::{Float, Host, Order, Value, ValueView, kind_name};

verus! {

#[derive(Clone, Copy, Debug, PartialEq, Eq, Structural)]
pub enum MathOperator {
    Addition,
    Subtraction,
    Multiply,
    Division,
    Eq,
    Neq,
    Lt,
    Gt,
    Lte,
    Gte,
}

impl MathOperator {
    /// Whether the operator computes a number (the others compare).
    pub open spec fn is_arithmetic(self) -> bool {
        self is Addition || self is Subtraction || self is Multiply || self is Division
    }
}

/// What an operator gives on two integers. Sums, differences and products
/// wrap around; a quotient is truncated towards zero, and the one quotient
/// that does not fit wraps around too. Nothing is defined where the divisor
/// is zero.
pub open spec fn int_result(op: MathOperator, a: i32, b: i32) -> Option<ValueView> {
    match op {
        MathOperator::Addition => Some(ValueView::Int(a.wrapping_add(b))),
        MathOperator::Subtraction => Some(ValueView::Int(a.wrapping_sub(b))),
        MathOperator::Multiply => Some(ValueView::Int(a.wrapping_mul(b))),
        MathOperator::Division => if b == 0 {
            None
        } else {
            match a.checked_div(b) {
                Some(q) => Some(ValueView::Int(q)),
                None => Some(ValueView::Int(i32::MIN)),
            }
        },
        MathOperator::Eq => Some(ValueView::Bool(a == b)),
        MathOperator::Neq => Some(ValueView::Bool(a != b)),
        MathOperator::Lt => Some(ValueView::Bool(a < b)),
        MathOperator::Gt => Some(ValueView::Bool(a > b)),
        MathOperator::Lte => Some(ValueView::Bool(a <= b)),
        MathOperator::Gte => Some(ValueView::Bool(a >= b)),
    }
}

/// What the view of an optional value is.
pub open spec fn option_value_view(r: Option<Value>) -> Option<ValueView> {
    match r {
        Some(v) => Some(v@),
        None => None,
    }
}

/// Applies an operator to two integers; `None` on a division by zero.
pub fn int_operation(op: MathOperator, a: i32, b: i32) -> (r: Option<Value>)
    ensures
        option_value_view(r) == int_result(op, a, b),
{
    match op {
        MathOperator::Addition => Some(Value::Int(a.wrapping_add(b))),
        MathOperator::Subtraction => Some(Value::Int(a.wrapping_sub(b))),
        MathOperator::Multiply => Some(Value::Int(a.wrapping_mul(b))),
        MathOperator::Division => if b == 0 {
            None
        } else {
            match a.checked_div(b) {
                Some(q) => Some(Value::Int(q)),
                None => Some(Value::Int(i32::MIN)),
            }
        },
        MathOperator::Eq => Some(Value::Bool(a == b)),
        MathOperator::Neq => Some(Value::Bool(a != b)),
        MathOperator::Lt => Some(Value::Bool(a < b)),
        MathOperator::Gt => Some(Value::Bool(a > b)),
        MathOperator::Lte => Some(Value::Bool(a <= b)),
        MathOperator::Gte => Some(Value::Bool(a >= b)),
    }
}

/// What an operator gives on two texts: `+` joins them, `==` and `!=`
/// compare them, and no other operator applies.
pub open spec fn text_result(op: MathOperator, a: Seq<char>, b: Seq<char>) -> Option<ValueView> {
    match op {
        MathOperator::Addition => Some(ValueView::String(a + b)),
        MathOperator::Eq => Some(ValueView::Bool(a == b)),
        MathOperator::Neq => Some(ValueView::Bool(a != b)),
        _ => None,
    }
}

/// Applies an operator to two texts; `None` where it does not apply.
pub fn text_operation(op: MathOperator, a: &String, b: &String) -> (r: Option<Value>)
    ensures
        option_value_view(r) == text_result(op, a@, b@),
{
    match op {
        MathOperator::Addition => Some(Value::String(a.clone().concat(b.as_str()))),
        MathOperator::Eq => Some(Value::Bool(*a == *b)),
        MathOperator::Neq => Some(Value::Bool(!(*a == *b))),
        _ => None,
    }
}

/// What a comparison gives for two floats, from how they stand to each
/// other. Floats that cannot be compared are unequal, and neither is less
/// than the other.
pub open spec fn comparison_result(op: MathOperator, order: Option<Order>) -> bool {
    match op {
        MathOperator::Eq => order == Some(Order::Equal),
        MathOperator::Neq => order != Some(Order::Equal),
        MathOperator::Lt => order == Some(Order::Less),
        MathOperator::Gt => order == Some(Order::Greater),
        MathOperator::Lte => order == Some(Order::Less) || order == Some(Order::Equal),
        MathOperator::Gte => order == Some(Order::Greater) || order == Some(Order::Equal),
        _ => false,
    }
}

pub fn float_comparison(op: MathOperator, order: Option<Order>) -> (r: bool)
    ensures
        r == comparison_result(op, order),
{
    match op {
        MathOperator::Eq => match order {
            Some(Order::Equal) => true,
            _ => false,
        },
        MathOperator::Neq => match order {
            Some(Order::Equal) => false,
            _ => true,
        },
        MathOperator::Lt => match order {
            Some(Order::Less) => true,
            _ => false,
        },
        MathOperator::Gt => match order {
            Some(Order::Greater) => true,
            _ => false,
        },
        MathOperator::Lte => match order {
            Some(Order::Less) => true,
            Some(Order::Equal) => true,
            _ => false,
        },
        MathOperator::Gte => match order {
            Some(Order::Greater) => true,
            Some(Order::Equal) => true,
            _ => false,
        },
        _ => false,
    }
}

/// What an operator gives on two floats: the host's arithmetic for an
/// arithmetic operator, and for a comparison what the host's ordering of
/// the two says.
pub open spec fn float_result(
    op: MathOperator,
    a: Float,
    b: Float,
    host: &Box<dyn Host>,
) -> ValueView {
    match op {
        MathOperator::Addition => ValueView::Float(host.sum_of(a, b)),
        MathOperator::Subtraction => ValueView::Float(host.difference_of(a, b)),
        MathOperator::Multiply => ValueView::Float(host.product_of(a, b)),
        MathOperator::Division => ValueView::Float(host.quotient_of(a, b)),
        _ => ValueView::Bool(comparison_result(op, host.order_of(a, b))),
    }
}

/// Applies an operator to two floats, in this order. The host does the
/// arithmetic and the ordering.
pub fn float_operation(op: MathOperator, a: Float, b: Float, host: &Box<dyn Host>) -> (r: Value)
    ensures
        r@ == float_result(op, a, b, host),
{
    match op {
        MathOperator::Addition => Value::Float(host.float_add(a, b)),
        MathOperator::Subtraction => Value::Float(host.float_sub(a, b)),
        MathOperator::Multiply => Value::Float(host.float_mul(a, b)),
        MathOperator::Division => Value::Float(host.float_div(a, b)),
        _ => {
            let order = host.float_compare(a, b);
            Value::Bool(float_comparison(op, order))
        },
    }
}

/// The message for two operands that an operator does not accept together.
pub open spec fn incompatible_message(a: ValueView, b: ValueView) -> Seq<char> {
    "Incompatible types ("@ + kind_name(a) + " and "@ + kind_name(b) + ") for this operator"@
}

/// The message for a left operand that no binary operator accepts.
pub open spec fn unsupported_message(a: ValueView) -> Seq<char> {
    "Operand A (type "@ + kind_name(a) + ") does not support this operator"@
}

/// The message for an operand that negation does not accept.
pub open spec fn negation_message(a: ValueView) -> Seq<char> {
    "Incompatible type ("@ + kind_name(a) + ") for this operator"@
}

pub open spec fn division_by_zero_message() -> Seq<char> {
    "Division by zero"@
}

/// Which operand of a binary operator an error is about.
#[derive(Clone, Copy, Debug, PartialEq, Eq, Structural)]
pub enum Side {
    Left,
    Right,
}

/// What a binary operator gives on two values, where the values decide it:
/// on integers, on texts, and where the types do not fit. An error names the
/// operand it is about. Where a float takes part the host decides, and this
/// is `None`.
pub open spec fn math_result(op: MathOperator, a: ValueView, b: ValueView) -> Option<
    Result<ValueView, (ErrorView, Side)>,
> {
    match a {
        ValueView::Int(x) => match b {
            ValueView::Int(y) => match int_result(op, x, y) {
                Some(v) => Some(Ok(v)),
                None => Some(Err((ErrorView::TypeError(division_by_zero_message()), Side::Right))),
            },
            ValueView::Float(_) => None,
            _ => Some(Err((ErrorView::TypeError(incompatible_message(a, b)), Side::Right))),
        },
        ValueView::Float(_) => match b {
            ValueView::Int(_) => None,
            ValueView::Float(_) => None,
            _ => Some(Err((ErrorView::TypeError(incompatible_message(a, b)), Side::Right))),
        },
        ValueView::String(x) => match b {
            ValueView::String(y) => match text_result(op, x, y) {
                Some(v) => Some(Ok(v)),
                None => Some(Err((ErrorView::TypeError(incompatible_message(a, b)), Side::Right))),
            },
            _ => Some(Err((ErrorView::TypeError(incompatible_message(a, b)), Side::Right))),
        },
        _ => Some(Err((ErrorView::TypeError(unsupported_message(a)), Side::Left))),
    }
}

/// The view of an evaluation's result: of the value, or of the error and
/// its span.
pub open spec fn eval_view(r: Result<Value, Spanned<Error>>) -> Result<
    ValueView,
    (ErrorView, Range<usize>),
> {
    match r {
        Ok(v) => Ok(v@),
        Err(e) => Err((e.item@, e.span)),
    }
}

/// An outcome of [`math_result`] with the span of the operand it names.
pub open spec fn with_span(
    res: Result<ValueView, (ErrorView, Side)>,
    span_a: Range<usize>,
    span_b: Range<usize>,
) -> Result<ValueView, (ErrorView, Range<usize>)> {
    match res {
        Ok(v) => Ok(v),
        Err((e, Side::Left)) => Err((e, span_a)),
        Err((e, Side::Right)) => Err((e, span_b)),
    }
}

fn incompatible(a: &Value, b: &Value, span: Range<usize>) -> (r: Spanned<Error>)
    ensures
        r.item@ == ErrorView::TypeError(incompatible_message(a@, b@)),
        r.span == span,
{
    let mut msg = String::from_str("Incompatible types (");
    msg.append(a.type_to_string());
    msg.append(" and ");
    msg.append(b.type_to_string());
    msg.append(") for this operator");
    Spanned::new(Error::TypeError(msg), span)
}

/// The float that a number enters an operation as, where the other operand
/// or itself is a float: a float as it is, an integer as the float that the
/// host gives for it.
pub open spec fn float_operand(v: ValueView, host: &Box<dyn Host>) -> Float {
    match v {
        ValueView::Int(n) => host.float_of(n),
        ValueView::Float(x) => x,
        _ => Float { bits: 0 },
    }
}

/// Applies a binary operator to two evaluated operands. `span_a` and
/// `span_b` are where the operands stand in the source. Where a float
/// takes part, the operation is the host's, on the operands in their order,
/// an integer among them made a float first.
pub fn math_operation(
    op: MathOperator,
    a: &Value,
    b: &Value,
    span_a: Range<usize>,
    span_b: Range<usize>,
    host: &Box<dyn Host>,
) -> (r: Result<Value, Spanned<Error>>)
    ensures
        math_result(op, a@, b@) matches Some(res) ==> eval_view(r) == with_span(
            res,
            span_a,
            span_b,
        ),
        math_result(op, a@, b@) is None ==> (r matches Ok(v) && v@ == float_result(
            op,
            float_operand(a@, host),
            float_operand(b@, host),
            host,
        )),
{
    match a {
        Value::Int(x) => match b {
            Value::Int(y) => match int_operation(op, *x, *y) {
                Some(v) => Ok(v),
                None => Err(
                    Spanned::new(Error::TypeError(String::from_str("Division by zero")), span_b),
                ),
            },
            Value::Float(y) => Ok(float_operation(op, host.float_from_int(*x), *y, host)),
            _ => Err(incompatible(a, b, span_b)),
        },
        Value::Float(x) => match b {
            Value::Int(y) => Ok(float_operation(op, *x, host.float_from_int(*y), host)),
            Value::Float(y) => Ok(float_operation(op, *x, *y, host)),
            _ => Err(incompatible(a, b, span_b)),
        },
        Value::String(x) => match b {
            Value::String(y) => match text_operation(op, x, y) {
                Some(v) => Ok(v),
                None => Err(incompatible(a, b, span_b)),
            },
            _ => Err(incompatible(a, b, span_b)),
        },
        _ => {
            let mut msg = String::from_str("Operand A (type ");
            msg.append(a.type_to_string());
            msg.append(") does not support this operator");
            Err(Spanned::new(Error::TypeError(msg), span_a))
        },
    }
}

/// What negation gives: an integer negated with wrap-around, a float with
/// its sign flipped, and a type error for anything else.
pub open spec fn negation_result(a: ValueView) -> Result<ValueView, ErrorView> {
    match a {
        ValueView::Int(x) => Ok(ValueView::Int(0i32.wrapping_sub(x))),
        ValueView::Float(x) => Ok(ValueView::Float(x.spec_negated())),
        _ => Err(ErrorView::TypeError(negation_message(a))),
    }
}

/// Negates an evaluated operand; `span` is where the negation stands.
pub fn negate(a: &Value, span: Range<usize>) -> (r: Result<Value, Spanned<Error>>)
    ensures
        eval_view(r) == match negation_result(a@) {
            Ok(v) => Ok(v),
            Err(e) => Err((e, span)),
        },
{
    match a {
        Value::Int(x) => Ok(Value::Int((0i32).wrapping_sub(*x))),
        Value::Float(x) => Ok(Value::Float(x.negated())),
        _ => {
            let mut msg = String::from_str("Incompatible type (");
            msg.append(a.type_to_string());
            msg.append(") for this operator");
            Err(Spanned::new(Error::TypeError(msg), span))
        },
    }
}

} // verus!
