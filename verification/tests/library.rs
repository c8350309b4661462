use std::cell::RefCell;
use std::rc::Rc;

use turtlicoscript::ast::Spanned;
use turtlicoscript::error::{Error, RuntimeError};
use turtlicoscript::interpreter::{
    callee, check_arg_count, check_interrupt, ends_block, float_literal, for_bounds, is_true,
    loop_count, loop_flow, native_outcome, unwrap_return, Context, ForFault, LoopFlow,
};
use turtlicoscript::native::{
    check_args, funcmap, get_sprite_id, native_request, ArgKind, ArgTypeSpec,
};
use turtlicoscript::operators::{
    float_comparison, float_operation, int_operation, math_operation, negate, text_operation,
    MathOperator,
};
use turtlicoscript::program::{ScriptState, WorldSyncState};
use turtlicoscript::scope::Scope;
use turtlicoscript::stdlib::{
    call_std, find_std_function, init_library, join_line, join_texts, parse_int, trim_line_end,
    IntFault, StdFunction,
};
use turtlicoscript::text::{int_to_string, nat_to_string, string_chars, string_from_chars};
use turtlicoscript::tokens::Token;
use turtlicoscript::value::{
    Callable, Float, HashableValue, Host, NativeFunc, ObjectRef, ObjectStore, Order, TSFunc,
    TSObject, Value,
};

struct Console {
    printed: Rc<RefCell<String>>,
    input: Vec<String>,
}

impl Host for Console {
    fn float_of(&self, n: i32) -> Float {
        self.float_from_int(n)
    }

    fn sum_of(&self, a: Float, b: Float) -> Float {
        self.float_add(a, b)
    }

    fn difference_of(&self, a: Float, b: Float) -> Float {
        self.float_sub(a, b)
    }

    fn product_of(&self, a: Float, b: Float) -> Float {
        self.float_mul(a, b)
    }

    fn quotient_of(&self, a: Float, b: Float) -> Float {
        self.float_div(a, b)
    }

    fn order_of(&self, a: Float, b: Float) -> Option<Order> {
        self.float_compare(a, b)
    }

    fn float_parse(&self, text: &str) -> Option<Float> {
        text.parse::<f64>().ok().map(|x| Float { bits: x.to_bits() })
    }

    fn float_format(&self, x: Float) -> String {
        format!("{}", f64::from_bits(x.bits))
    }

    fn float_from_int(&self, n: i32) -> Float {
        Float { bits: f64::from(n).to_bits() }
    }

    fn float_add(&self, a: Float, b: Float) -> Float {
        Float { bits: (f64::from_bits(a.bits) + f64::from_bits(b.bits)).to_bits() }
    }

    fn float_sub(&self, a: Float, b: Float) -> Float {
        Float { bits: (f64::from_bits(a.bits) - f64::from_bits(b.bits)).to_bits() }
    }

    fn float_mul(&self, a: Float, b: Float) -> Float {
        Float { bits: (f64::from_bits(a.bits) * f64::from_bits(b.bits)).to_bits() }
    }

    fn float_div(&self, a: Float, b: Float) -> Float {
        Float { bits: (f64::from_bits(a.bits) / f64::from_bits(b.bits)).to_bits() }
    }

    fn float_compare(&self, a: Float, b: Float) -> Option<Order> {
        let x = f64::from_bits(a.bits);
        let y = f64::from_bits(b.bits);
        if x < y {
            Some(Order::Less)
        } else if x > y {
            Some(Order::Greater)
        } else if x == y {
            Some(Order::Equal)
        } else {
            None
        }
    }

    fn float_random(&mut self) -> Float {
        Float { bits: 0.25f64.to_bits() }
    }

    fn print(&mut self, text: &str) {
        self.printed.borrow_mut().push_str(text);
    }

    fn read_line(&mut self) -> Result<String, String> {
        if self.input.is_empty() {
            Err(String::from("end of input"))
        } else {
            Ok(self.input.remove(0))
        }
    }
}

fn host_with(input: &[&str]) -> (Box<dyn Host>, Rc<RefCell<String>>) {
    let printed = Rc::new(RefCell::new(String::new()));
    let host = Console {
        printed: printed.clone(),
        input: input.iter().map(|s| String::from(*s)).collect(),
    };
    (Box::new(host), printed)
}

fn host() -> Box<dyn Host> {
    host_with(&[]).0
}

fn float(x: f64) -> Float {
    Float { bits: x.to_bits() }
}

fn text(s: &str) -> Value {
    Value::String(String::from(s))
}

#[test]
fn decimal_forms() {
    assert_eq!(int_to_string(0), "0");
    assert_eq!(int_to_string(7), "7");
    assert_eq!(int_to_string(12), "12");
    assert_eq!(int_to_string(-12), "-12");
    assert_eq!(int_to_string(i32::MAX), "2147483647");
    assert_eq!(int_to_string(i32::MIN), "-2147483648");
    assert_eq!(nat_to_string(1000), "1000");
    assert_eq!(nat_to_string(u128::MAX), "340282366920938463463374607431768211455");
}

#[test]
fn texts_and_their_characters() {
    assert_eq!(string_chars("aé"), vec!['a', 'é']);
    assert_eq!(string_chars(""), Vec::<char>::new());
    let chars = vec!['a', 'b', 'c', 'd'];
    assert_eq!(string_from_chars(&chars, 1, 3), "bc");
    assert_eq!(string_from_chars(&chars, 2, 2), "");
    assert_eq!(trim_line_end("line\n"), "line");
    assert_eq!(trim_line_end("line\n\n"), "line");
    assert_eq!(trim_line_end("a\nb"), "a\nb");
    assert_eq!(trim_line_end("\n"), "");
    assert_eq!(trim_line_end("line\r\n"), "line\r");
}

#[test]
fn integers_in_texts() {
    assert_eq!(parse_int("0"), Ok(0));
    assert_eq!(parse_int("42"), Ok(42));
    assert_eq!(parse_int("+42"), Ok(42));
    assert_eq!(parse_int("-42"), Ok(-42));
    assert_eq!(parse_int("007"), Ok(7));
    assert_eq!(parse_int("2147483647"), Ok(i32::MAX));
    assert_eq!(parse_int("-2147483648"), Ok(i32::MIN));
    assert_eq!(parse_int("2147483648"), Err(IntFault::PosOverflow));
    assert_eq!(parse_int("-2147483649"), Err(IntFault::NegOverflow));
    assert_eq!(parse_int(""), Err(IntFault::Empty));
    assert_eq!(parse_int("-"), Err(IntFault::InvalidDigit));
    assert_eq!(parse_int("+"), Err(IntFault::InvalidDigit));
    assert_eq!(parse_int("12a"), Err(IntFault::InvalidDigit));
    assert_eq!(parse_int(" 12"), Err(IntFault::InvalidDigit));
    assert_eq!(parse_int("1.5"), Err(IntFault::InvalidDigit));
    assert_eq!(parse_int("99999999999x"), Err(IntFault::PosOverflow));
    assert_eq!(parse_int("--1"), Err(IntFault::InvalidDigit));
}

#[test]
fn the_names_of_the_base_library() {
    assert_eq!(find_std_function("println"), Some(StdFunction::Println));
    assert_eq!(find_std_function("print"), Some(StdFunction::Print));
    assert_eq!(find_std_function("readln"), Some(StdFunction::Readln));
    assert_eq!(find_std_function("int"), Some(StdFunction::Int));
    assert_eq!(find_std_function("float"), Some(StdFunction::Float));
    assert_eq!(find_std_function("string"), Some(StdFunction::String));
    assert_eq!(find_std_function("random"), Some(StdFunction::Random));
    assert_eq!(find_std_function("Print"), None);
    let library = init_library();
    assert_eq!(library.name, "std");
    assert_eq!(library.scope.vars.len(), 7);
    assert!(library.scope.vars_props.is_empty());
    match library.scope.get(&String::from("int")) {
        Some(Value::Callable(Callable::NativeFunc(f))) => {
            assert_eq!(f.library, "std");
            assert_eq!(f.name, "int");
            assert!(f.this.is_none());
        }
        other => panic!("got {:?}", other),
    }
    let mut h = host();
    assert!(matches!(
        call_std("nothing", vec![], &mut h),
        Err(RuntimeError::InvalidIdentifier(ref n)) if n == "nothing"
    ));
}

#[test]
fn conversion_to_integers() {
    let mut h = host();
    assert!(matches!(call_std("int", vec![Value::Int(5)], &mut h), Ok(Value::Int(5))));
    assert!(matches!(call_std("int", vec![text("-17")], &mut h), Ok(Value::Int(-17))));
    assert!(matches!(
        call_std("int", vec![text("x")], &mut h),
        Err(RuntimeError::TypeParseError(ref m)) if m == "invalid digit found in string"
    ));
    assert!(matches!(
        call_std("int", vec![text("")], &mut h),
        Err(RuntimeError::TypeParseError(ref m)) if m == "cannot parse integer from empty string"
    ));
    assert!(matches!(
        call_std("int", vec![text("3000000000")], &mut h),
        Err(RuntimeError::TypeParseError(ref m)) if m == "number too large to fit in target type"
    ));
    assert!(matches!(
        call_std("int", vec![text("-3000000000")], &mut h),
        Err(RuntimeError::TypeParseError(ref m)) if m == "number too small to fit in target type"
    ));
    assert!(matches!(
        call_std("int", vec![Value::Bool(true)], &mut h),
        Err(RuntimeError::TypeParseUnsupported(ref a, ref b)) if a == "bool" && b == "int"
    ));
    assert!(matches!(call_std("int", vec![], &mut h), Err(RuntimeError::InvalidArgCount(0, 1))));
    assert!(matches!(
        call_std("int", vec![Value::Int(1), Value::Int(2)], &mut h),
        Err(RuntimeError::InvalidArgCount(2, 1))
    ));
}

#[test]
fn conversion_to_floats() {
    let mut h = host();
    match call_std("float", vec![text("2.5")], &mut h) {
        Ok(Value::Float(x)) => assert_eq!(x, float(2.5)),
        other => panic!("got {:?}", other),
    }
    assert!(matches!(call_std("float", vec![Value::Int(5)], &mut h), Ok(Value::Int(5))));
    assert!(matches!(
        call_std("float", vec![text("x")], &mut h),
        Err(RuntimeError::TypeParseError(ref m)) if m == "invalid float literal"
    ));
    assert!(matches!(
        call_std("float", vec![text("")], &mut h),
        Err(RuntimeError::TypeParseError(ref m)) if m == "cannot parse float from empty string"
    ));
    assert!(matches!(
        call_std("float", vec![Value::Float(float(1.0))], &mut h),
        Err(RuntimeError::TypeParseUnsupported(ref a, ref b)) if a == "float" && b == "float"
    ));
    assert!(matches!(call_std("float", vec![], &mut h), Err(RuntimeError::InvalidArgCount(0, 1))));
}

#[test]
fn texts_of_values() {
    let h = host();
    assert_eq!(Value::Int(-3).to_text(&h), "-3");
    assert_eq!(Value::Float(float(5.1)).to_text(&h), "5.1");
    assert_eq!(Value::Float(float(2.0)).to_text(&h), "2");
    assert_eq!(text("plain").to_text(&h), "plain");
    assert_eq!(Value::Image(String::from("cat")).to_text(&h), "Image: cat");
    assert_eq!(Value::Key(String::from("A")).to_text(&h), "Key: A");
    assert_eq!(Value::Bool(true).to_text(&h), "true");
    assert_eq!(Value::Bool(false).to_text(&h), "false");
    assert_eq!(Value::Object(ObjectRef { id: 0 }).to_text(&h), "<Object>");
    assert_eq!(Value::Break.to_text(&h), "<Break>");
    assert_eq!(Value::Nil.to_text(&h), "None");
    assert_eq!(Value::EvaluatedReturn(Box::new(Value::Int(1))).to_text(&h), "<Return value: 1>");
    let native = Value::Callable(Callable::NativeFunc(NativeFunc {
        this: None,
        library: String::from("std"),
        name: String::from("int"),
    }));
    assert_eq!(native.to_text(&h), "<Native function>");
    let function = Value::Callable(Callable::Function(Box::new(TSFunc {
        body: Spanned::new(turtlicoscript::ast::Expression::Nil, 0..0),
        args: vec![],
    })));
    assert_eq!(function.to_text(&h), "<Function>");
    let mut h = host();
    assert!(matches!(call_std("string", vec![Value::Int(12)], &mut h), Ok(Value::String(ref s)) if s == "12"));
    assert!(matches!(call_std("string", vec![], &mut h), Err(RuntimeError::InvalidArgCount(0, 1))));
}

#[test]
fn names_of_types() {
    assert_eq!(Value::Int(1).type_to_string(), "int");
    assert_eq!(Value::Float(float(1.0)).type_to_string(), "float");
    assert_eq!(text("").type_to_string(), "string");
    assert_eq!(Value::Image(String::new()).type_to_string(), "image");
    assert_eq!(Value::Bool(true).type_to_string(), "bool");
    assert_eq!(Value::Key(String::new()).type_to_string(), "key");
    assert_eq!(Value::Object(ObjectRef { id: 0 }).type_to_string(), "object");
    assert_eq!(Value::EvaluatedReturn(Box::new(Value::Nil)).type_to_string(), "return");
    assert_eq!(Value::Break.type_to_string(), "break");
    assert_eq!(Value::Nil.type_to_string(), "none");
}

#[test]
fn narrowing_of_values() {
    assert!(matches!(Value::Int(3).try_into_int(), Ok(3)));
    assert!(matches!(text("3").try_into_int(), Err(RuntimeError::TypeError)));
    assert!(matches!(Value::Float(float(1.0)).try_into_int(), Err(RuntimeError::TypeError)));
    assert!(matches!(Value::Float(float(1.5)).try_into_float(), Ok(x) if x == float(1.5)));
    assert!(matches!(Value::Int(1).try_into_float(), Err(RuntimeError::TypeError)));
    assert!(matches!(HashableValue::try_from(Value::Int(3)), Ok(HashableValue::Int(3))));
    assert!(matches!(HashableValue::try_from(text("k")), Ok(HashableValue::String(ref s)) if s == "k"));
    assert!(matches!(
        HashableValue::try_from(Value::Bool(true)),
        Err(RuntimeError::TypeHashUnsupported)
    ));
    assert!(matches!(
        HashableValue::try_from(Value::Float(float(1.0))),
        Err(RuntimeError::TypeHashUnsupported)
    ));
    assert!(matches!(Value::from(5), Value::Int(5)));
    assert!(matches!(Value::from(float(0.5)), Value::Float(x) if x == float(0.5)));
    assert!(matches!(Value::from_text("t"), Value::String(ref s) if s == "t"));
    assert_eq!(HashableValue::from_text("t"), HashableValue::String(String::from("t")));
    assert!(HashableValue::Int(1).same(&HashableValue::Int(1)));
    assert!(!HashableValue::Int(1).same(&HashableValue::from_text("1")));
}

#[test]
fn negation_flips_the_sign_of_a_float() {
    assert_eq!(float(1.5).negated(), float(-1.5));
    assert_eq!(float(0.0).negated(), float(-0.0));
    assert_eq!(float(f64::INFINITY).negated(), float(f64::NEG_INFINITY));
    assert_eq!(float(1.5).negated().negated(), float(1.5));
}

#[test]
fn random_numbers() {
    let mut h = host();
    assert!(matches!(call_std("random", vec![], &mut h), Ok(Value::Float(x)) if x == float(0.25)));
    assert!(matches!(
        call_std("random", vec![Value::Int(3), Value::Int(3)], &mut h),
        Ok(Value::Int(3))
    ));
    let mut seen_above = false;
    for _ in 0..200 {
        match call_std("random", vec![Value::Int(-5), Value::Int(1000000)], &mut h) {
            Ok(Value::Int(n)) => {
                assert!(-5 <= n && n <= 1000000);
                if n != -5 {
                    seen_above = true;
                }
            }
            other => panic!("got {:?}", other),
        }
    }
    assert!(seen_above);
    assert!(matches!(
        call_std("random", vec![Value::Int(2), Value::Int(1)], &mut h),
        Err(RuntimeError::NativeLibraryError(ref m)) if m == "cannot sample empty range"
    ));
    assert!(matches!(
        call_std("random", vec![text("a"), Value::Int(1)], &mut h),
        Err(RuntimeError::TypeError)
    ));
    assert!(matches!(
        call_std("random", vec![Value::Int(1)], &mut h),
        Err(RuntimeError::InvalidArgCount(1, 2))
    ));
}

#[test]
fn printing() {
    let (mut h, printed) = host_with(&[]);
    assert!(matches!(
        call_std("print", vec![Value::Int(1), text("two"), Value::Float(float(3.5))], &mut h),
        Ok(Value::Nil)
    ));
    assert_eq!(printed.borrow().as_str(), "1 two 3.5");
    printed.borrow_mut().clear();
    assert!(matches!(call_std("println", vec![text("line")], &mut h), Ok(Value::Nil)));
    assert!(matches!(call_std("println", vec![], &mut h), Ok(Value::Nil)));
    assert_eq!(printed.borrow().as_str(), "line\n\n");
}

#[test]
fn reading_lines() {
    let (mut h, printed) = host_with(&["first\n", "second\n\n", "third"]);
    assert!(matches!(call_std("readln", vec![], &mut h), Ok(Value::String(ref s)) if s == "first"));
    assert_eq!(printed.borrow().as_str(), "");
    assert!(matches!(
        call_std("readln", vec![text("name? ")], &mut h),
        Ok(Value::String(ref s)) if s == "second"
    ));
    assert_eq!(printed.borrow().as_str(), "name? ");
    assert!(matches!(call_std("readln", vec![text("")], &mut h), Ok(Value::String(ref s)) if s == "third"));
    assert!(matches!(
        call_std("readln", vec![], &mut h),
        Err(RuntimeError::NativeLibraryError(ref m)) if m == "end of input"
    ));
    assert!(matches!(
        call_std("readln", vec![Value::Int(1)], &mut h),
        Err(RuntimeError::InvalidArgType(0))
    ));
    assert!(matches!(
        call_std("readln", vec![text("a"), text("b")], &mut h),
        Err(RuntimeError::InvalidArgCount(2, 1))
    ));
}

#[test]
fn operators_on_values() {
    assert!(matches!(int_operation(MathOperator::Addition, 5, 3), Some(Value::Int(8))));
    assert!(matches!(int_operation(MathOperator::Division, 7, 2), Some(Value::Int(3))));
    assert!(matches!(int_operation(MathOperator::Division, -7, 2), Some(Value::Int(-3))));
    assert!(matches!(int_operation(MathOperator::Division, 7, 0), None));
    assert!(matches!(int_operation(MathOperator::Division, i32::MIN, -1), Some(Value::Int(i32::MIN))));
    assert!(matches!(int_operation(MathOperator::Subtraction, i32::MIN, 1), Some(Value::Int(i32::MAX))));
    assert!(matches!(int_operation(MathOperator::Multiply, 6, 7), Some(Value::Int(42))));
    assert!(matches!(int_operation(MathOperator::Lte, 2, 2), Some(Value::Bool(true))));
    let a = String::from("a");
    let b = String::from("b");
    assert!(matches!(text_operation(MathOperator::Addition, &a, &b), Some(Value::String(ref s)) if s == "ab"));
    assert!(matches!(text_operation(MathOperator::Eq, &a, &b), Some(Value::Bool(false))));
    assert!(matches!(text_operation(MathOperator::Neq, &a, &b), Some(Value::Bool(true))));
    assert!(text_operation(MathOperator::Lt, &a, &b).is_none());
    assert!(text_operation(MathOperator::Multiply, &a, &b).is_none());
    assert!(float_comparison(MathOperator::Neq, None));
    assert!(!float_comparison(MathOperator::Eq, None));
    assert!(!float_comparison(MathOperator::Lte, None));
    assert!(float_comparison(MathOperator::Lte, Some(Order::Equal)));
    assert!(float_comparison(MathOperator::Gte, Some(Order::Greater)));
    assert!(!float_comparison(MathOperator::Gt, Some(Order::Equal)));
    assert!(!float_comparison(MathOperator::Addition, Some(Order::Equal)));
    let h = host();
    let nan = Value::Float(float(f64::NAN));
    assert!(matches!(
        math_operation(MathOperator::Eq, &nan, &nan, 0..1, 2..3, &h),
        Ok(Value::Bool(false))
    ));
    assert!(matches!(
        math_operation(MathOperator::Neq, &nan, &Value::Int(1), 0..1, 2..3, &h),
        Ok(Value::Bool(true))
    ));
    assert!(matches!(negate(&Value::Int(i32::MIN), 0..1), Ok(Value::Int(i32::MIN))));
    assert!(matches!(negate(&Value::Int(4), 0..1), Ok(Value::Int(-4))));
}

#[test]
fn decisions_of_the_evaluator() {
    assert!(matches!(unwrap_return(Value::EvaluatedReturn(Box::new(Value::Int(1)))), Value::Int(1)));
    assert!(matches!(unwrap_return(Value::Int(2)), Value::Int(2)));
    assert!(matches!(
        unwrap_return(Value::EvaluatedReturn(Box::new(Value::EvaluatedReturn(Box::new(Value::Nil))))),
        Value::EvaluatedReturn(_)
    ));
    assert!(ends_block(&Value::Break));
    assert!(ends_block(&Value::EvaluatedReturn(Box::new(Value::Nil))));
    assert!(!ends_block(&Value::Nil));
    assert!(matches!(loop_flow(Value::Break), LoopFlow::Stop));
    assert!(matches!(loop_flow(Value::Int(1)), LoopFlow::Continue));
    assert!(matches!(
        loop_flow(Value::EvaluatedReturn(Box::new(Value::Int(1)))),
        LoopFlow::Return(Value::EvaluatedReturn(_))
    ));
    assert!(is_true(&Value::Bool(true)));
    assert!(!is_true(&Value::Bool(false)));
    assert!(!is_true(&Value::Int(1)));
    assert!(check_interrupt(false, 1, &(0..1)).is_ok());
    match check_interrupt(true, 1, &(3..4)) {
        Err(e) => {
            assert!(matches!(e.item, Error::Interrupted));
            assert_eq!(e.span, 3..4);
        }
        Ok(_) => panic!("not interrupted"),
    }
    assert!(check_interrupt(false, 0, &(0..1)).is_err());
    assert!(check_arg_count(2, 2, &(0..1)).is_ok());
    match check_arg_count(1, 2, &(5..6)) {
        Err(e) => {
            assert!(matches!(e.item, Error::RuntimeError(RuntimeError::InvalidArgCount(1, 2))));
            assert_eq!(e.span, 5..6);
        }
        Ok(_) => panic!("accepted"),
    }
    assert!(matches!(
        native_outcome(Ok(Value::EvaluatedReturn(Box::new(Value::Int(1)))), 0..1),
        Ok(Value::Int(1))
    ));
    match native_outcome(Err(RuntimeError::TypeError), 7..9) {
        Err(e) => {
            assert!(matches!(e.item, Error::RuntimeError(RuntimeError::TypeError)));
            assert_eq!(e.span, 7..9);
        }
        Ok(_) => panic!("no error"),
    }
    assert_eq!(for_bounds(&Value::Int(1), &Value::Int(2), &Value::Int(3)), Ok((1, 2, 3)));
    assert_eq!(for_bounds(&Value::Nil, &Value::Nil, &Value::Nil), Err(ForFault::Start));
    assert_eq!(for_bounds(&Value::Int(1), &Value::Nil, &Value::Nil), Err(ForFault::End));
    assert_eq!(for_bounds(&Value::Int(1), &Value::Int(2), &Value::Nil), Err(ForFault::Step));
}

#[test]
fn scopes_bind_names() {
    let mut scope = Scope::new();
    assert!(scope.get(&String::from("a")).is_none());
    assert!(scope.insert(String::from("a"), Value::Int(1)).is_none());
    assert!(matches!(scope.insert(String::from("a"), Value::Int(2)), Some(Value::Int(1))));
    assert!(matches!(scope.get(&String::from("a")), Some(Value::Int(2))));
    assert_eq!(scope.vars.len(), 1);
    assert!(!scope.is_prop(&String::from("a")));
    scope.set_prop(String::from("a"));
    assert!(scope.is_prop(&String::from("a")));
    scope.vars.push((String::from("a"), Value::Int(9)));
    assert!(matches!(scope.get(&String::from("a")), Some(Value::Int(2))));
}

#[test]
fn assignment_writes_to_the_innermost_scope_that_binds_the_name() {
    let mut ctx = Context::new_parent(None, host());
    ctx.stack[0].insert(String::from("outer"), Value::Int(1));
    ctx.stack.push(Scope::new());
    ctx.stack[1].insert(String::from("middle"), Value::Int(2));
    ctx.stack.push(Scope::new());
    assert_eq!(ctx.find_scope(&String::from("outer")), Some(0));
    assert_eq!(ctx.find_scope(&String::from("middle")), Some(1));
    assert_eq!(ctx.find_scope(&String::from("nowhere")), None);
    assert!(matches!(ctx.assign(String::from("outer"), Value::Int(10)), Value::Int(1)));
    assert!(matches!(ctx.assign(String::from("fresh"), Value::Int(3)), Value::Nil));
    assert!(matches!(ctx.stack[0].get(&String::from("outer")), Some(Value::Int(10))));
    assert!(matches!(ctx.stack[2].get(&String::from("fresh")), Some(Value::Int(3))));
    assert!(ctx.stack[0].get(&String::from("fresh")).is_none());
    assert!(ctx.stack[1].get(&String::from("fresh")).is_none());
    ctx.stack[2].insert(String::from("outer"), Value::Int(5));
    assert_eq!(ctx.find_scope(&String::from("outer")), Some(2));
    assert!(matches!(ctx.assign(String::from("outer"), Value::Int(6)), Value::Int(5)));
    assert!(matches!(ctx.stack[0].get(&String::from("outer")), Some(Value::Int(10))));
}

#[test]
fn a_function_called_on_values() {
    let mut ctx = Context::new_parent(None, host());
    let ast = turtlicoscript::parser::parse("fn add($a, $b) { $c = $a + $b return $c }").unwrap();
    ctx.eval_root(&ast).unwrap();
    let func = match ctx.stack[0].get(&String::from("add")) {
        Some(Value::Callable(Callable::Function(f))) => (**f).clone(),
        other => panic!("got {:?}", other),
    };
    assert_eq!(func.args, vec![String::from("a"), String::from("b")]);
    let names_before: Vec<String> = ctx.stack[0].vars.iter().map(|e| e.0.clone()).collect();
    assert!(matches!(ctx.call_function(&func, vec![Value::Int(2), Value::Int(3)]), Ok(Value::Int(5))));
    let names_after: Vec<String> = ctx.stack[0].vars.iter().map(|e| e.0.clone()).collect();
    assert_eq!(names_before, names_after);
    assert_eq!(ctx.stack.len(), 1);
}

#[test]
fn objects_in_their_store() {
    let mut store = ObjectStore::new();
    let mut object = TSObject::new();
    assert!(object.insert(HashableValue::Int(1), text("one")).is_none());
    assert!(matches!(object.insert(HashableValue::Int(1), text("uno")), Some(Value::String(ref s)) if s == "one"));
    object.set_prop(String::from("live"));
    assert!(object.is_prop(&String::from("live")));
    assert!(!object.is_prop(&String::from("dead")));
    let first = store.put(object);
    let second = store.put(TSObject::new());
    assert_eq!(first.id, 0);
    assert_eq!(second.id, 1);
    assert!(matches!(
        store.get(first).unwrap().get(&HashableValue::Int(1)),
        Some(Value::String(ref s)) if s == "uno"
    ));
    assert!(store.get(ObjectRef { id: 2 }).is_none());
    assert!(matches!(store.set_field(second, HashableValue::from_text("f"), Value::Int(1)), Ok(None)));
    assert!(matches!(
        store.set_field(second, HashableValue::from_text("f"), Value::Int(2)),
        Ok(Some(Value::Int(1)))
    ));
    assert!(store.set_field(ObjectRef { id: 9 }, HashableValue::Int(0), Value::Nil).is_err());
    assert!(store.get(first).unwrap().get(&HashableValue::from_text("f")).is_none());
}

fn spec(kind: ArgKind, default: Option<Value>) -> ArgTypeSpec {
    ArgTypeSpec { arg_type: kind, default_value: default }
}

#[test]
fn arguments_are_checked_against_a_schema() {
    let h = host();
    let schema = vec![spec(ArgKind::String, None), spec(ArgKind::Int, Some(Value::Int(1)))];
    match check_args(&schema, vec![text("a")], &h) {
        Ok(args) => {
            assert_eq!(args.len(), 2);
            assert!(matches!(args[0], Value::String(ref s) if s == "a"));
            assert!(matches!(args[1], Value::Int(1)));
        }
        Err(e) => panic!("{:?}", e),
    }
    match check_args(&schema, vec![text("a"), Value::Int(7)], &h) {
        Ok(args) => assert!(matches!(args[1], Value::Int(7))),
        Err(e) => panic!("{:?}", e),
    }
    assert!(matches!(check_args(&schema, vec![], &h), Err(RuntimeError::InvalidArgCount(1, 2))));
    assert!(matches!(
        check_args(&schema, vec![text("a"), Value::Int(1), Value::Int(2)], &h),
        Err(RuntimeError::InvalidArgCount(3, 2))
    ));
    assert!(matches!(
        check_args(&schema, vec![Value::Int(1), Value::Int(1)], &h),
        Err(RuntimeError::InvalidArgType(0))
    ));
    assert!(matches!(
        check_args(&schema, vec![text("a"), text("b")], &h),
        Err(RuntimeError::InvalidArgType(1))
    ));
    assert!(matches!(check_args(&vec![], vec![], &h), Ok(ref a) if a.is_empty()));
    assert!(matches!(
        check_args(&vec![], vec![Value::Nil], &h),
        Err(RuntimeError::InvalidArgCount(1, 0))
    ));
}

#[test]
fn arguments_of_each_kind() {
    let h = host();
    let schema = vec![
        spec(ArgKind::Float, None),
        spec(ArgKind::Float, None),
        spec(ArgKind::Object, None),
        spec(ArgKind::Image, None),
        spec(ArgKind::Other, None),
    ];
    let args = vec![
        Value::Int(2),
        Value::Float(float(0.5)),
        Value::Object(ObjectRef { id: 0 }),
        Value::Image(String::from("cat")),
        Value::Break,
    ];
    match check_args(&schema, args, &h) {
        Ok(args) => {
            assert!(matches!(args[0], Value::Float(x) if x == float(2.0)));
            assert!(matches!(args[1], Value::Float(x) if x == float(0.5)));
            assert!(matches!(args[2], Value::Object(_)));
            assert!(matches!(args[3], Value::Image(_)));
            assert!(matches!(args[4], Value::Break));
        }
        Err(e) => panic!("{:?}", e),
    }
    let float_only = vec![spec(ArgKind::Float, Some(Value::Int(1)))];
    assert!(matches!(
        check_args(&float_only, vec![], &h),
        Ok(ref a) if matches!(a[0], Value::Float(x) if x == float(1.0))
    ));
    assert!(matches!(
        check_args(&float_only, vec![text("1")], &h),
        Err(RuntimeError::InvalidArgType(0))
    ));
    assert!(matches!(
        check_args(&vec![spec(ArgKind::Object, None)], vec![Value::Int(1)], &h),
        Err(RuntimeError::InvalidArgType(0))
    ));
    assert!(matches!(
        check_args(&vec![spec(ArgKind::Image, None)], vec![text("cat")], &h),
        Err(RuntimeError::InvalidArgType(0))
    ));
}

#[test]
fn a_default_fills_the_end_of_the_arguments() {
    let h = host();
    let schema = vec![spec(ArgKind::Int, None), spec(ArgKind::Int, Some(Value::Int(9)))];
    assert!(matches!(check_args(&schema, vec![], &h), Err(RuntimeError::InvalidArgCount(1, 2))));
}

#[test]
fn the_sprite_of_an_object() {
    let mut store = ObjectStore::new();
    let mut turtle = TSObject::new();
    turtle.insert(HashableValue::from_text("sprite_id"), Value::Int(4));
    let turtle = store.put(turtle);
    let mut broken = TSObject::new();
    broken.insert(HashableValue::from_text("sprite_id"), text("four"));
    let broken = store.put(broken);
    let mut negative = TSObject::new();
    negative.insert(HashableValue::from_text("sprite_id"), Value::Int(-1));
    let negative = store.put(negative);
    let plain = store.put(TSObject::new());
    assert!(matches!(get_sprite_id(&store, Some(turtle)), Ok(4)));
    assert!(matches!(get_sprite_id(&store, None), Err(RuntimeError::MethodCalledAsFunction)));
    assert!(matches!(
        get_sprite_id(&store, Some(ObjectRef { id: 100 })),
        Err(RuntimeError::MethodCalledAsFunction)
    ));
    assert!(matches!(get_sprite_id(&store, Some(broken)), Err(RuntimeError::TypeError)));
    assert!(matches!(get_sprite_id(&store, Some(negative)), Err(RuntimeError::TypeError)));
    assert!(matches!(
        get_sprite_id(&store, Some(plain)),
        Err(RuntimeError::InvalidIdentifier(ref n)) if n == "sprite_id"
    ));
}

#[test]
fn the_functions_that_a_library_offers() {
    let names = vec![String::from("go"), String::from("left")];
    let this = Some(ObjectRef { id: 3 });
    let map = funcmap("gui", this, &names);
    assert_eq!(map.len(), 2);
    assert_eq!(map[0].0, "go");
    match &map[1].1 {
        Value::Callable(Callable::NativeFunc(f)) => {
            assert_eq!(f.library, "gui");
            assert_eq!(f.name, "left");
            assert_eq!(f.this, this);
        }
        other => panic!("got {:?}", other),
    }
    assert!(funcmap("gui", None, &vec![]).is_empty());
}

#[test]
fn texts_of_errors() {
    assert_eq!(Error::InvalidToken.to_text(), "InvalidToken");
    assert_eq!(Error::UnexpectedToken(Token::Comma).to_text(), "UnexpectedToken(Comma)");
    assert_eq!(
        Error::UnexpectedToken(Token::Function(String::from("go"))).to_text(),
        "UnexpectedToken(Function(\"go\"))"
    );
    assert_eq!(Error::SyntaxError(String::from("bad")).to_text(), "SyntaxError(\"bad\")");
    assert_eq!(Error::ThisCannotBeCalled(String::from("5")).to_text(), "ThisCannotBeCalled(\"5\")");
    assert_eq!(Error::ThisIsNotAssignable.to_text(), "ThisIsNotAssignable");
    assert_eq!(Error::InvalidIterationCount.to_text(), "InvalidIterationCount");
    assert_eq!(Error::InvalidForStart.to_text(), "InvalidForStart");
    assert_eq!(Error::InvalidForEnd.to_text(), "InvalidForEnd");
    assert_eq!(Error::InvalidForStep.to_text(), "InvalidForStep");
    assert_eq!(Error::TypeError(String::from("no")).to_text(), "TypeError(\"no\")");
    assert_eq!(Error::Interrupted.to_text(), "Interrupted");
    assert_eq!(
        Error::RuntimeError(RuntimeError::InvalidArgCount(1, 2)).to_text(),
        "RuntimeError(InvalidArgCount(1, 2))"
    );
    assert_eq!(RuntimeError::InvalidArgType(3).to_text(), "InvalidArgType(3)");
    assert_eq!(
        RuntimeError::InvalidIdentifier(String::from("x")).to_text(),
        "InvalidIdentifier(\"x\")"
    );
    assert_eq!(RuntimeError::TypeParseError(String::from("m")).to_text(), "TypeParseError(\"m\")");
    assert_eq!(
        RuntimeError::TypeParseUnsupported(String::from("bool"), String::from("int")).to_text(),
        "TypeParseUnsupported(\"bool\", \"int\")"
    );
    assert_eq!(RuntimeError::TypeHashUnsupported.to_text(), "TypeHashUnsupported");
    assert_eq!(RuntimeError::TypeError.to_text(), "TypeError");
    assert_eq!(RuntimeError::InvalidBlock(String::from("b")).to_text(), "InvalidBlock(\"b\")");
    assert_eq!(
        RuntimeError::NativeLibraryError(String::from("e")).to_text(),
        "NativeLibraryError(\"e\")"
    );
    assert_eq!(RuntimeError::MethodCalledAsFunction.to_text(), "MethodCalledAsFunction");
    assert_eq!(RuntimeError::MissingParam(String::from("block")).to_text(), "MissingParam(\"block\")");
}

#[test]
fn messages_show_the_error_in_its_line() {
    let source = "$a = 1\n$b = $a + nothing\n$c = 3";
    let error = Spanned::new(
        Error::RuntimeError(RuntimeError::InvalidIdentifier(String::from("nothing"))),
        17..24,
    );
    assert_eq!(
        error.build_message(source),
        "An \x1b[31merror\x1b[0m occurred on line 2:\n$b = $a + \x1b[41mnothing\x1b[0m\n\x1b[33mRuntimeError(InvalidIdentifier(\"nothing\"))\x1b[0m"
    );
    let first = Spanned::new(Error::InvalidToken, 0..2);
    assert_eq!(
        first.build_message(source),
        "An \x1b[31merror\x1b[0m occurred on line 1:\n\x1b[41m$a\x1b[0m = 1\n\x1b[33mInvalidToken\x1b[0m"
    );
    let last = Spanned::new(Error::Interrupted, 30..31);
    assert_eq!(
        last.build_message(source),
        "An \x1b[31merror\x1b[0m occurred on line 3:\n$c = \x1b[41m3\x1b[0m\n\x1b[33mInterrupted\x1b[0m"
    );
}

#[test]
fn messages_for_spans_at_the_edges() {
    let nowhere = Spanned::new(Error::Interrupted, 0..0);
    assert_eq!(
        nowhere.build_message(""),
        "An \x1b[31merror\x1b[0m occurred on line 1:\n\x1b[41m\x1b[0m\n\x1b[33mInterrupted\x1b[0m"
    );
    let beyond = Spanned::new(Error::Interrupted, 50..60);
    assert_eq!(
        beyond.build_message("ab\ncd"),
        "An \x1b[31merror\x1b[0m occurred on line 2:\ncd\x1b[41m\x1b[0m\n\x1b[33mInterrupted\x1b[0m"
    );
    let backwards = Spanned::new(Error::Interrupted, 4..1);
    assert_eq!(
        backwards.build_message("ab\ncd"),
        "An \x1b[31merror\x1b[0m occurred on line 2:\nc\x1b[41m\x1b[0md\n\x1b[33mInterrupted\x1b[0m"
    );
    let two_lines = Spanned::new(Error::Interrupted, 1..4);
    assert_eq!(
        two_lines.build_message("ab\ncd"),
        "An \x1b[31merror\x1b[0m occurred on line 1:\na\x1b[41mb\nc\x1b[0md\n\x1b[33mInterrupted\x1b[0m"
    );
    let wide = Spanned::new(Error::Interrupted, 2..5);
    assert_eq!(
        wide.build_message("žé x"),
        "An \x1b[31merror\x1b[0m occurred on line 1:\nž\x1b[41mé \x1b[0mx\n\x1b[33mInterrupted\x1b[0m"
    );
    let inside = Spanned::new(Error::Interrupted, 3..5);
    assert_eq!(
        inside.build_message("žé x"),
        "An \x1b[31merror\x1b[0m occurred on line 1:\nžé\x1b[41m \x1b[0mx\n\x1b[33mInterrupted\x1b[0m"
    );
}

#[test]
fn the_state_of_a_run() {
    assert!(matches!(ScriptState::from_result(Ok(Value::Int(1))), ScriptState::Finished));
    let failed = ScriptState::from_result(Err(Spanned::new(Error::ThisIsNotAssignable, 1..2)));
    assert!(matches!(failed, ScriptState::Error(ref e) if e.span == (1..2)));
    assert!(failed.is_failure());
    let stopped = ScriptState::from_result(Err(Spanned::new(Error::Interrupted, 1..2)));
    assert!(matches!(stopped, ScriptState::Error(_)));
    assert!(!stopped.is_failure());
    assert!(!ScriptState::Running.is_failure());
    assert!(!ScriptState::Finished.is_failure());
    assert!(WorldSyncState::Cancelled.ends_wait());
    assert!(!WorldSyncState::Update.ends_wait());
}

#[test]
fn a_new_context() {
    let ctx = Context::new_parent(None, host());
    assert_eq!(ctx.stack.len(), 1);
    assert_eq!(ctx.stack[0].vars.len(), 7);
    assert_eq!(ctx.libctx.len(), 1);
    assert_eq!(ctx.libctx[0].0, "std");
    assert_eq!(ctx.budget, u64::MAX);
    assert!(ctx.cancellable.is_none());
    assert!(ctx.objects.objects.is_empty());
}

#[test]
fn an_operator_on_two_floats() {
    let h = host();
    let cases = [
        (MathOperator::Addition, 1.5, 0.25, 1.75),
        (MathOperator::Subtraction, 1.5, 0.25, 1.25),
        (MathOperator::Subtraction, 0.25, 1.5, -1.25),
        (MathOperator::Multiply, 1.5, 4.0, 6.0),
        (MathOperator::Division, 1.0, 4.0, 0.25),
        (MathOperator::Division, 4.0, 1.0, 4.0),
    ];
    for (op, a, b, expected) in cases {
        match float_operation(op, float(a), float(b), &h) {
            Value::Float(x) => assert_eq!(x, float(expected)),
            other => panic!("got {:?}", other),
        }
    }
    let orders = [
        (MathOperator::Lt, 1.0, 2.0, true),
        (MathOperator::Lt, 2.0, 1.0, false),
        (MathOperator::Gt, 2.0, 1.0, true),
        (MathOperator::Lte, 2.0, 2.0, true),
        (MathOperator::Gte, 1.0, 2.0, false),
        (MathOperator::Eq, 2.0, 2.0, true),
        (MathOperator::Neq, 2.0, 2.0, false),
        (MathOperator::Eq, f64::NAN, f64::NAN, false),
        (MathOperator::Neq, f64::NAN, f64::NAN, true),
    ];
    for (op, a, b, expected) in orders {
        match float_operation(op, float(a), float(b), &h) {
            Value::Bool(x) => assert_eq!(x, expected),
            other => panic!("got {:?}", other),
        }
    }
}

#[test]
fn an_integer_beside_a_float_is_made_a_float() {
    let h = host();
    match math_operation(MathOperator::Division, &Value::Int(5), &Value::Float(float(2.0)), 0..1, 2..3, &h) {
        Ok(Value::Float(x)) => assert_eq!(x, float(2.5)),
        other => panic!("got {:?}", other),
    }
    match math_operation(MathOperator::Division, &Value::Float(float(2.0)), &Value::Int(5), 0..1, 2..3, &h) {
        Ok(Value::Float(x)) => assert_eq!(x, float(0.4)),
        other => panic!("got {:?}", other),
    }
    match math_operation(MathOperator::Lt, &Value::Int(1), &Value::Float(float(1.5)), 0..1, 2..3, &h) {
        Ok(Value::Bool(x)) => assert!(x),
        other => panic!("got {:?}", other),
    }
    match math_operation(MathOperator::Lt, &Value::Float(float(1.5)), &Value::Int(1), 0..1, 2..3, &h) {
        Ok(Value::Bool(x)) => assert!(!x),
        other => panic!("got {:?}", other),
    }
}

#[test]
fn the_request_of_a_native_call() {
    let func = NativeFunc {
        this: Some(ObjectRef { id: 3 }),
        library: String::from("lib"),
        name: String::from("move"),
    };
    let request = native_request(&func, vec![Value::Int(1), text("a")]);
    assert_eq!(request.name, "move");
    assert_eq!(request.this, Some(ObjectRef { id: 3 }));
    assert_eq!(request.args.len(), 2);
    assert!(matches!(request.args[0], Value::Int(1)));
    assert!(matches!(request.args[1], Value::String(ref s) if s == "a"));
    let plain = NativeFunc { this: None, library: String::from("lib"), name: String::from("f") };
    let request = native_request(&plain, Vec::new());
    assert_eq!(request.name, "f");
    assert_eq!(request.this, None);
    assert!(request.args.is_empty());
}

#[test]
fn the_count_of_a_loop_must_be_an_integer() {
    assert!(matches!(loop_count(&Value::Int(3), &(0..1)), Ok(3)));
    assert!(matches!(loop_count(&Value::Int(-1), &(0..1)), Ok(-1)));
    for v in [text("3"), Value::Float(float(3.0)), Value::Nil, Value::Bool(true)] {
        match loop_count(&v, &(4..9)) {
            Err(e) => {
                assert!(matches!(e.item, Error::InvalidIterationCount));
                assert_eq!(e.span, 4..9);
            }
            Ok(n) => panic!("got {}", n),
        }
    }
}

#[test]
fn only_a_function_can_be_called() {
    let h = host();
    let func = NativeFunc { this: None, library: String::from("lib"), name: String::from("f") };
    match callee(Value::Callable(Callable::NativeFunc(func)), &(0..1), &h) {
        Ok(Callable::NativeFunc(f)) => assert_eq!(f.name, "f"),
        other => panic!("got {:?}", other),
    }
    match callee(Value::Int(12), &(2..6), &h) {
        Err(e) => {
            assert!(matches!(e.item, Error::ThisCannotBeCalled(ref t) if t == "12"));
            assert_eq!(e.span, 2..6);
        }
        other => panic!("got {:?}", other),
    }
    match callee(Value::Nil, &(0..4), &h) {
        Err(e) => assert!(matches!(e.item, Error::ThisCannotBeCalled(ref t) if t == "None")),
        other => panic!("got {:?}", other),
    }
}

#[test]
fn the_line_of_println_ends_with_a_line_end() {
    let h = host();
    let args = vec![Value::Int(1), text("a"), Value::Bool(true)];
    assert_eq!(join_texts(&args, &h), "1 a true");
    assert_eq!(join_line(&args, &h), "1 a true\n");
    assert_eq!(join_line(&Vec::new(), &h), "\n");
}

#[test]
fn a_float_literal_is_what_the_host_reads() {
    let written = String::from("2.5");
    match float_literal(Some(float(2.5)), &written, &(0..3)) {
        Ok(Value::Float(x)) => assert_eq!(x, float(2.5)),
        other => panic!("got {:?}", other),
    }
    let odd = String::from("1e999x");
    match float_literal(None, &odd, &(4..10)) {
        Err(e) => {
            assert!(matches!(
                e.item,
                Error::RuntimeError(RuntimeError::TypeParseError(ref t)) if t == "1e999x"
            ));
            assert_eq!(e.span, 4..10);
        }
        other => panic!("got {:?}", other),
    }
}
