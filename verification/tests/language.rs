use std::cell::RefCell;
use std::rc::Rc;
use std::sync::atomic::{AtomicBool, Ordering};
use std::sync::Arc;

use turtlicoscript::ast::{Expression, Spanned};
use turtlicoscript::error::{Error, RuntimeError};
use turtlicoscript::interpreter::{Context, Library};
use turtlicoscript::parser::{get_tokens, parse, parse_tokens};
use turtlicoscript::scope::Scope;
use turtlicoscript::tokens::Token;
use turtlicoscript::value::{
    Callable, Float, FuncThisObject, HashableValue, Host, LibraryContext, NativeFunc,
    NativeFuncArgs, NativeFuncReturn, ObjectRef, ObjectStore, Order, TSObject, Value,
};

struct Console {
    printed: Rc<RefCell<String>>,
    input: Vec<String>,
}

impl Host for Console {
    fn float_of(&self, n: i32) -> Float {
        self.float_from_int(n)
    }

    fn sum_of(&self, a: Float, b: Float) -> Float {
        self.float_add(a, b)
    }

    fn difference_of(&self, a: Float, b: Float) -> Float {
        self.float_sub(a, b)
    }

    fn product_of(&self, a: Float, b: Float) -> Float {
        self.float_mul(a, b)
    }

    fn quotient_of(&self, a: Float, b: Float) -> Float {
        self.float_div(a, b)
    }

    fn order_of(&self, a: Float, b: Float) -> Option<Order> {
        self.float_compare(a, b)
    }

    fn float_parse(&self, text: &str) -> Option<Float> {
        text.parse::<f64>().ok().map(|x| Float { bits: x.to_bits() })
    }

    fn float_format(&self, x: Float) -> String {
        format!("{}", f64::from_bits(x.bits))
    }

    fn float_from_int(&self, n: i32) -> Float {
        Float { bits: f64::from(n).to_bits() }
    }

    fn float_add(&self, a: Float, b: Float) -> Float {
        Float { bits: (f64::from_bits(a.bits) + f64::from_bits(b.bits)).to_bits() }
    }

    fn float_sub(&self, a: Float, b: Float) -> Float {
        Float { bits: (f64::from_bits(a.bits) - f64::from_bits(b.bits)).to_bits() }
    }

    fn float_mul(&self, a: Float, b: Float) -> Float {
        Float { bits: (f64::from_bits(a.bits) * f64::from_bits(b.bits)).to_bits() }
    }

    fn float_div(&self, a: Float, b: Float) -> Float {
        Float { bits: (f64::from_bits(a.bits) / f64::from_bits(b.bits)).to_bits() }
    }

    fn float_compare(&self, a: Float, b: Float) -> Option<Order> {
        let x = f64::from_bits(a.bits);
        let y = f64::from_bits(b.bits);
        if x < y {
            Some(Order::Less)
        } else if x > y {
            Some(Order::Greater)
        } else if x == y {
            Some(Order::Equal)
        } else {
            None
        }
    }

    fn float_random(&mut self) -> Float {
        Float { bits: 0.25f64.to_bits() }
    }

    fn print(&mut self, text: &str) {
        self.printed.borrow_mut().push_str(text);
    }

    fn read_line(&mut self) -> Result<String, String> {
        if self.input.is_empty() {
            Err(String::from("end of input"))
        } else {
            Ok(self.input.remove(0))
        }
    }
}

fn context() -> Context {
    Context::new_parent(
        None,
        Box::new(Console { printed: Rc::new(RefCell::new(String::new())), input: Vec::new() }),
    )
}

fn run_in(ctx: &mut Context, src: &str) -> Result<Value, Spanned<Error>> {
    let ast = match parse(src) {
        Ok(ast) => ast,
        Err(errors) => panic!("cannot parse {:?}: {:?}", src, errors),
    };
    ctx.eval_root(&ast)
}

fn run(src: &str) -> Result<Value, Spanned<Error>> {
    let mut ctx = context();
    run_in(&mut ctx, src)
}

fn text_of(src: &str) -> String {
    let mut ctx = context();
    match run_in(&mut ctx, src) {
        Ok(v) => v.to_text(&ctx.host),
        Err(e) => panic!("{:?} failed: {:?}", src, e),
    }
}

fn int_of(src: &str) -> i32 {
    match run(src) {
        Ok(Value::Int(n)) => n,
        other => panic!("{:?} gave {:?}", src, other),
    }
}

fn float(x: f64) -> Float {
    Float { bits: x.to_bits() }
}

#[test]
fn integer_arithmetic() {
    assert_eq!(int_of("5 + 3"), 8);
    assert_eq!(int_of("7 / 2"), 3);
    assert_eq!(int_of("0 - 7 / 2"), -3);
    assert_eq!(int_of("(0 - 7) / 2"), -3);
    assert_eq!(int_of("2 + 3 * 4"), 14);
    assert_eq!(int_of("(2 + 3) * 4"), 20);
    assert_eq!(int_of("10 - 3 - 2"), 5);
    assert_eq!(int_of("-5 + 2"), -3);
    assert_eq!(int_of("--5"), 5);
}

#[test]
fn integer_arithmetic_wraps() {
    assert_eq!(int_of("2147483647 + 1"), i32::MIN);
    assert_eq!(int_of("(0 - 2147483647 - 1) / (0 - 1)"), i32::MIN);
    assert_eq!(int_of("65536 * 65536"), 0);
}

#[test]
fn division_by_zero_is_an_error() {
    match run("1 / 0") {
        Err(e) => {
            assert!(matches!(e.item, Error::TypeError(ref m) if m == "Division by zero"));
            assert_eq!(e.span, 4..5);
        }
        other => panic!("got {:?}", other),
    }
}

#[test]
fn float_promotion() {
    match run("5 / 2.0") {
        Ok(Value::Float(x)) => assert_eq!(x, float(2.5)),
        other => panic!("got {:?}", other),
    }
    match run("2.5 * 2") {
        Ok(Value::Float(x)) => assert_eq!(x, float(5.0)),
        other => panic!("got {:?}", other),
    }
    match run("1.5 + 1.5") {
        Ok(Value::Float(x)) => assert_eq!(x, float(3.0)),
        other => panic!("got {:?}", other),
    }
    match run("-1.5") {
        Ok(Value::Float(x)) => assert_eq!(x, float(-1.5)),
        other => panic!("got {:?}", other),
    }
    assert!(matches!(run("1 < 1.5"), Ok(Value::Bool(true))));
    assert!(matches!(run("2.0 == 2"), Ok(Value::Bool(true))));
    assert!(matches!(run("2.5 != 2.5"), Ok(Value::Bool(false))));
    assert!(matches!(run("inf > 1000000"), Ok(Value::Bool(true))));
    assert!(matches!(run("2.5 >= 3"), Ok(Value::Bool(false))));
}

#[test]
fn comparisons_of_integers() {
    assert!(matches!(run("1 == 1"), Ok(Value::Bool(true))));
    assert!(matches!(run("1 != 1"), Ok(Value::Bool(false))));
    assert!(matches!(run("1 < 2"), Ok(Value::Bool(true))));
    assert!(matches!(run("1 > 2"), Ok(Value::Bool(false))));
    assert!(matches!(run("2 <= 2"), Ok(Value::Bool(true))));
    assert!(matches!(run("1 >= 2"), Ok(Value::Bool(false))));
}

#[test]
fn images_and_keys_are_values_of_their_own() {
    assert!(matches!(run("@\"cat\""), Ok(Value::Image(ref s)) if s == "cat"));
    assert!(matches!(run("k\"A\""), Ok(Value::Key(ref s)) if s == "A"));
    assert!(matches!(run("@\"cat\" + @\"dog\""), Err(_)));
}

#[test]
fn string_concatenation() {
    match run("\"a\" + \"b\"") {
        Ok(Value::String(s)) => assert_eq!(s, "ab"),
        other => panic!("got {:?}", other),
    }
    assert!(matches!(run("\"a\" == \"a\""), Ok(Value::Bool(true))));
    assert!(matches!(run("\"a\" != \"a\""), Ok(Value::Bool(false))));
}

#[test]
fn string_product_is_a_type_error() {
    match run("\"a\" * \"b\"") {
        Err(e) => {
            assert!(matches!(
                e.item,
                Error::TypeError(ref m) if m == "Incompatible types (string and string) for this operator"
            ));
            assert_eq!(e.span, 6..9);
        }
        other => panic!("got {:?}", other),
    }
}

#[test]
fn operator_type_errors_name_the_operand() {
    match run("1 + \"b\"") {
        Err(e) => {
            assert!(matches!(
                e.item,
                Error::TypeError(ref m) if m == "Incompatible types (int and string) for this operator"
            ));
            assert_eq!(e.span, 4..7);
        }
        other => panic!("got {:?}", other),
    }
    match run("(1 == 1) + 2") {
        Err(e) => {
            assert!(matches!(
                e.item,
                Error::TypeError(ref m) if m == "Operand A (type bool) does not support this operator"
            ));
            assert_eq!(e.span, 1..7);
        }
        other => panic!("got {:?}", other),
    }
    match run("-\"a\"") {
        Err(e) => {
            assert!(matches!(
                e.item,
                Error::TypeError(ref m) if m == "Incompatible type (string) for this operator"
            ));
            assert_eq!(e.span, 0..4);
        }
        other => panic!("got {:?}", other),
    }
}

#[test]
fn for_loop_binds_in_order_and_leaves_the_variable() {
    assert_eq!(text_of("$s = \"\" for $x 0 5 { $s = $s + string($x) } return $s"), "01234");
    assert_eq!(int_of("for $x 0 5 { } return $x"), 4);
    assert_eq!(int_of("$n = 0 for $x 0 10 3 { $n = $n + 1 } return $n"), 4);
    assert_eq!(int_of("$n = 0 for $x 5 0 { $n = $n + 1 } return $n"), 0);
}

#[test]
fn for_loop_bounds_must_be_integers() {
    match run("for $x \"a\" 5 { }") {
        Err(e) => {
            assert!(matches!(e.item, Error::InvalidForStart));
            assert_eq!(e.span, 7..10);
        }
        other => panic!("got {:?}", other),
    }
    match run("for $x 0 \"b\" { }") {
        Err(e) => {
            assert!(matches!(e.item, Error::InvalidForEnd));
            assert_eq!(e.span, 9..12);
        }
        other => panic!("got {:?}", other),
    }
    match run("for $x 0 5 \"c\" { }") {
        Err(e) => {
            assert!(matches!(e.item, Error::InvalidForStep));
            assert_eq!(e.span, 11..14);
        }
        other => panic!("got {:?}", other),
    }
}

#[test]
fn break_ends_the_innermost_loop_only() {
    let src = "$n = 0\n\
               for $i 0 3 {\n\
               ;loop {\n\
               ;;$n = $n + 1\n\
               ;;break\n\
               ;}\n\
               }\n\
               return $n";
    assert_eq!(int_of(src), 3);
    assert!(matches!(run("loop { break }"), Ok(Value::Nil)));
    assert!(matches!(run("while 1 == 1 { break }"), Ok(Value::Nil)));
    assert_eq!(int_of("$n = 0 loop 5 { $n = $n + 1 if $n == 2 { break } } return $n"), 2);
}

#[test]
fn return_in_a_loop_ends_the_function() {
    assert_eq!(int_of("fn first() { loop 10 { return 1 } return 2 } first()"), 1);
    assert_eq!(int_of("fn first() { loop { return 3 } } first()"), 3);
    assert_eq!(int_of("fn first() { while 1 == 1 { return 4 } } first()"), 4);
    assert_eq!(int_of("fn first() { for $i 0 9 { if $i == 5 { return $i } } } first()"), 5);
}

#[test]
fn finite_loop_counts() {
    assert_eq!(int_of("$n = 0 loop 4 { $n = $n + 1 } return $n"), 4);
    assert_eq!(int_of("$n = 0 loop 0 { $n = $n + 1 } return $n"), 0);
    assert_eq!(int_of("$n = 0 loop (0 - 3) { $n = $n + 1 } return $n"), 0);
    match run("loop \"x\" { }") {
        Err(e) => {
            assert!(matches!(e.item, Error::InvalidIterationCount));
            assert_eq!(e.span, 5..8);
        }
        other => panic!("got {:?}", other),
    }
}

#[test]
fn conditions_hold_for_true_only() {
    assert_eq!(int_of("if 1 == 1 { 7 }"), 7);
    assert!(matches!(run("if 1 == 2 { 7 }"), Ok(Value::Nil)));
    assert!(matches!(run("if 1 { 7 }"), Ok(Value::Nil)));
    assert!(matches!(run("if \"true\" { 7 }"), Ok(Value::Nil)));
    assert_eq!(int_of("$n = 0 while $n { $n = 5 } return $n"), 0);
}

#[test]
fn a_function_has_a_scope_of_its_own() {
    match run("fn set() { $inner = 1 } set() return $inner") {
        Err(e) => assert!(matches!(
            e.item,
            Error::RuntimeError(RuntimeError::InvalidIdentifier(ref n)) if n == "inner"
        )),
        other => panic!("got {:?}", other),
    }
    assert_eq!(int_of("$outer = 1 fn set() { $outer = 2 } set() return $outer"), 2);
    assert_eq!(int_of("$v = 1 fn set($v) { $v = 5 } set(9) return $v"), 1);
}

#[test]
fn assignment_gives_the_old_value() {
    assert!(matches!(run("$a = 1"), Ok(Value::Nil)));
    assert_eq!(int_of("$a = 1 $a = 2"), 1);
    assert_eq!(int_of("$o = {} $o.$f = 1 $o.$f = 2"), 1);
}

#[test]
fn functions_are_defined_when_their_definition_runs() {
    match run("later() fn later() { 1 }") {
        Err(e) => assert!(matches!(
            e.item,
            Error::RuntimeError(RuntimeError::InvalidIdentifier(ref n)) if n == "later"
        )),
        other => panic!("got {:?}", other),
    }
    assert_eq!(int_of("fn two() { 2 } two()"), 2);
    assert_eq!(int_of("fn two() { 2 } two"), 2);
    assert_eq!(int_of("fn twice($x) { $x * 2 } twice 4"), 8);
}

#[test]
fn argument_count_must_match() {
    match run("fn one($a) { $a } one(1, 2)") {
        Err(e) => {
            assert!(matches!(e.item, Error::RuntimeError(RuntimeError::InvalidArgCount(2, 1))));
            assert_eq!(e.span, 18..27);
        }
        other => panic!("got {:?}", other),
    }
}

#[test]
fn calling_a_value_that_is_no_function() {
    let mut ctx = context();
    ctx.stack[0].insert(String::from("five"), Value::Int(5));
    match run_in(&mut ctx, "five()") {
        Err(e) => {
            assert!(matches!(e.item, Error::ThisCannotBeCalled(ref t) if t == "5"));
            assert_eq!(e.span, 0..6);
        }
        other => panic!("got {:?}", other),
    }
}

#[test]
fn only_variables_can_be_assigned() {
    let target = Spanned::new(Expression::Int(1), 0..1);
    let value = Spanned::new(Expression::Int(2), 4..5);
    let assignment = Spanned::new(
        Expression::Assignment { expr: Box::new(target), value: Box::new(value) },
        0..5,
    );
    let mut ctx = context();
    match ctx.eval_root(&assignment) {
        Err(e) => {
            assert!(matches!(e.item, Error::ThisIsNotAssignable));
            assert_eq!(e.span, 0..1);
        }
        other => panic!("got {:?}", other),
    }
}

#[test]
fn objects_keep_their_fields() {
    assert_eq!(int_of("$o = {\"a\": 1, \"a\": 2} return $o.$a"), 2);
    assert_eq!(text_of("$o = {1: \"one\"} return $o"), "<Object>");
    match run("$o = {\"a\": 1} return $o.$b") {
        Err(e) => assert!(matches!(
            e.item,
            Error::RuntimeError(RuntimeError::InvalidIdentifier(ref n)) if n == "b"
        )),
        other => panic!("got {:?}", other),
    }
    match run("$o = {(1 == 1): 1}") {
        Err(e) => {
            assert!(matches!(e.item, Error::RuntimeError(RuntimeError::TypeHashUnsupported)));
            assert_eq!(e.span, 7..13);
        }
        other => panic!("got {:?}", other),
    }
    match run("$n = 1 return $n.$a") {
        Err(e) => assert!(matches!(e.item, Error::TypeError(ref m) if m == "This is not an object")),
        other => panic!("got {:?}", other),
    }
    match run("$n = 1 $n.$a = 2") {
        Err(e) => assert!(matches!(e.item, Error::TypeError(ref m) if m == "This is not an object")),
        other => panic!("got {:?}", other),
    }
}

#[test]
fn objects_are_shared_by_those_who_hold_them() {
    assert_eq!(int_of("$a = {\"n\": 1} $b = $a $b.$n = 5 return $a.$n"), 5);
    assert_eq!(int_of("$a = {\"n\": 1} fn set($o) { $o.$n = 7 } set($a) return $a.$n"), 7);
}

struct Counter {
    count: i32,
}

impl LibraryContext for Counter {
    fn gives(
        &self,
        _name: &str,
        _this: FuncThisObject,
        _args: NativeFuncArgs,
        _answer: NativeFuncReturn,
    ) -> bool {
        true
    }

    fn call(
        &mut self,
        name: &str,
        this: FuncThisObject,
        args: NativeFuncArgs,
        objects: &mut ObjectStore,
        _host: &mut Box<dyn Host>,
    ) -> NativeFuncReturn {
        match name {
            "tick" => {
                self.count += 1;
                Ok(Value::Int(self.count))
            }
            "bump" => {
                self.count += 10;
                Ok(Value::Nil)
            }
            "fail" => Err(RuntimeError::NativeLibraryError(String::from("failed"))),
            "early" => Ok(Value::EvaluatedReturn(Box::new(Value::Int(42)))),
            "count_args" => Ok(Value::Int(args.len() as i32)),
            "has_this" => Ok(Value::Bool(this.is_some())),
            "make" => {
                let mut object = TSObject::new();
                object.insert(
                    HashableValue::String(String::from("live")),
                    Value::Callable(Callable::NativeFunc(NativeFunc {
                        this: None,
                        library: String::from("counter"),
                        name: String::from("tick"),
                    })),
                );
                object.insert(HashableValue::String(String::from("fixed")), Value::Int(1));
                object.insert(HashableValue::String(String::from("broken")), Value::Int(2));
                object.set_prop(String::from("live"));
                object.set_prop(String::from("broken"));
                Ok(Value::Object(objects.put(object)))
            }
            _ => Err(RuntimeError::InvalidIdentifier(String::from(name))),
        }
    }
}

fn native(name: &str) -> Value {
    Value::Callable(Callable::NativeFunc(NativeFunc {
        this: None,
        library: String::from("counter"),
        name: String::from(name),
    }))
}

fn counter_library() -> Library {
    let mut scope = Scope::new();
    for name in ["tick", "bump", "fail", "early", "count_args", "has_this", "make"] {
        scope.insert(String::from(name), native(name));
    }
    scope.insert(String::from("now"), native("tick"));
    scope.set_prop(String::from("now"));
    scope.insert(String::from("dead"), Value::Int(0));
    scope.set_prop(String::from("dead"));
    Library { name: String::from("counter"), scope, context: Box::new(Counter { count: 0 }) }
}

fn counting_context() -> Context {
    let mut ctx = context();
    ctx.import_library(counter_library(), false);
    ctx
}

#[test]
fn computed_properties_run_on_every_read() {
    let mut ctx = counting_context();
    assert!(matches!(run_in(&mut ctx, "$o = make()"), Ok(Value::Nil)));
    assert!(matches!(run_in(&mut ctx, "$o.$live"), Ok(Value::Int(1))));
    assert!(matches!(run_in(&mut ctx, "bump()"), Ok(Value::Nil)));
    assert!(matches!(run_in(&mut ctx, "$o.$live"), Ok(Value::Int(12))));
    assert!(matches!(run_in(&mut ctx, "$o.$fixed"), Ok(Value::Int(1))));
    match run_in(&mut ctx, "$o.$broken") {
        Err(e) => assert!(
            matches!(e.item, Error::TypeError(ref m) if m == "Property field is not a callable")
        ),
        other => panic!("got {:?}", other),
    }
}

#[test]
fn computed_variables_run_on_every_read() {
    let mut ctx = counting_context();
    assert!(matches!(run_in(&mut ctx, "$now"), Ok(Value::Int(1))));
    assert!(matches!(run_in(&mut ctx, "$now + $now"), Ok(Value::Int(5))));
    match run_in(&mut ctx, "$dead") {
        Err(e) => assert!(
            matches!(e.item, Error::TypeError(ref m) if m == "Property field is not a callable")
        ),
        other => panic!("got {:?}", other),
    }
}

#[test]
fn assigning_through_a_property_stores_a_plain_value() {
    let mut ctx = counting_context();
    assert!(matches!(run_in(&mut ctx, "$o = make()"), Ok(Value::Nil)));
    assert!(matches!(run_in(&mut ctx, "$o.$plain = 3 $o.$plain"), Ok(Value::Int(3))));
}

#[test]
fn native_calls() {
    let mut ctx = counting_context();
    assert!(matches!(run_in(&mut ctx, "count_args(1, 2, 3)"), Ok(Value::Int(3))));
    assert!(matches!(run_in(&mut ctx, "count_args(, 1)"), Ok(Value::Int(1))));
    assert!(matches!(run_in(&mut ctx, "count_args 9"), Ok(Value::Int(1))));
    assert!(matches!(run_in(&mut ctx, "has_this()"), Ok(Value::Bool(false))));
    assert!(matches!(run_in(&mut ctx, "early() + 1"), Ok(Value::Int(43))));
    match run_in(&mut ctx, "1 + fail()") {
        Err(e) => {
            assert!(matches!(
                e.item,
                Error::RuntimeError(RuntimeError::NativeLibraryError(ref m)) if m == "failed"
            ));
            assert_eq!(e.span, 4..10);
        }
        other => panic!("got {:?}", other),
    }
}

#[test]
fn a_library_can_be_imported_under_its_name() {
    let mut ctx = context();
    ctx.import_library(counter_library(), true);
    assert!(matches!(run_in(&mut ctx, "$x = 1"), Ok(Value::Nil)));
    assert!(ctx.stack[0].get(&String::from("counter.tick")).is_some());
    assert!(ctx.stack[0].get(&String::from("tick")).is_none());
    assert!(ctx.stack[0].is_prop(&String::from("counter.now")));
    assert!(!ctx.stack[0].is_prop(&String::from("now")));
}

#[test]
fn a_function_of_a_library_that_was_not_imported() {
    let mut ctx = context();
    ctx.stack[0].insert(String::from("tick"), native("tick"));
    match run_in(&mut ctx, "tick()") {
        Err(e) => assert!(matches!(
            e.item,
            Error::RuntimeError(RuntimeError::NativeLibraryError(ref m)) if m == "counter"
        )),
        other => panic!("got {:?}", other),
    }
}

#[test]
fn a_float_that_the_host_cannot_read() {
    let ast = parse_tokens(vec![Token::Float(String::from("1.2.3"))]).unwrap();
    let mut ctx = context();
    match ctx.eval_root(&ast) {
        Err(e) => {
            assert!(matches!(
                e.item,
                Error::RuntimeError(RuntimeError::TypeParseError(ref t)) if t == "1.2.3"
            ));
            assert_eq!(e.span, 0..1);
        }
        other => panic!("got {:?}", other),
    }
}

#[test]
fn a_library_takes_the_place_of_one_of_its_name() {
    let mut ctx = context();
    assert!(matches!(run_in(&mut ctx, "int(\"5\")"), Ok(Value::Int(5))));
    let mut library = counter_library();
    library.name = String::from("std");
    ctx.import_library(library, false);
    assert_eq!(ctx.libctx.len(), 1);
    match run_in(&mut ctx, "int(\"5\")") {
        Err(e) => assert!(matches!(
            e.item,
            Error::RuntimeError(RuntimeError::InvalidIdentifier(ref n)) if n == "int"
        )),
        other => panic!("got {:?}", other),
    }
    ctx.import_library(counter_library(), false);
    assert_eq!(ctx.libctx.len(), 2);
    assert!(matches!(run_in(&mut ctx, "tick()"), Ok(Value::Int(1))));
}

#[test]
fn printing_from_a_program() {
    let printed = Rc::new(RefCell::new(String::new()));
    let mut ctx = Context::new_parent(
        None,
        Box::new(Console { printed: printed.clone(), input: vec![String::from("Ada\n")] }),
    );
    let src = "$name = readln(\"who? \")\nprintln(\"hello\", $name, 1 + 1, 0.5)\nprint $name";
    assert!(matches!(run_in(&mut ctx, src), Ok(Value::Nil)));
    assert_eq!(printed.borrow().as_str(), "who? hello Ada 2 0.5\nAda");
}

#[test]
fn cancellation_interrupts_an_endless_loop() {
    let flag = Arc::new(AtomicBool::new(true));
    let mut ctx = Context::new_parent(
        Some(flag.clone()),
        Box::new(Console { printed: Rc::new(RefCell::new(String::new())), input: Vec::new() }),
    );
    match run_in(&mut ctx, "loop { }") {
        Err(e) => {
            assert!(matches!(e.item, Error::Interrupted));
            assert_eq!(e.span, 0..8);
        }
        other => panic!("got {:?}", other),
    }
    flag.store(false, Ordering::Relaxed);
    assert!(matches!(run_in(&mut ctx, "1 + 1"), Ok(Value::Int(2))));
}

struct Stopper {
    flag: Arc<AtomicBool>,
    calls: i32,
}

impl LibraryContext for Stopper {
    fn gives(
        &self,
        _name: &str,
        _this: FuncThisObject,
        _args: NativeFuncArgs,
        _answer: NativeFuncReturn,
    ) -> bool {
        true
    }

    fn call(
        &mut self,
        _name: &str,
        _this: FuncThisObject,
        _args: NativeFuncArgs,
        _objects: &mut ObjectStore,
        _host: &mut Box<dyn Host>,
    ) -> NativeFuncReturn {
        self.calls += 1;
        if self.calls == 3 {
            self.flag.store(true, Ordering::Relaxed);
        }
        Ok(Value::Int(self.calls))
    }
}

#[test]
fn cancellation_during_a_loop() {
    let flag = Arc::new(AtomicBool::new(false));
    let mut ctx = Context::new_parent(
        Some(flag.clone()),
        Box::new(Console { printed: Rc::new(RefCell::new(String::new())), input: Vec::new() }),
    );
    let mut scope = Scope::new();
    scope.insert(
        String::from("step"),
        Value::Callable(Callable::NativeFunc(NativeFunc {
            this: None,
            library: String::from("stopper"),
            name: String::from("step"),
        })),
    );
    ctx.import_library(
        Library {
            name: String::from("stopper"),
            scope,
            context: Box::new(Stopper { flag: flag.clone(), calls: 0 }),
        },
        false,
    );
    match run_in(&mut ctx, "$n = 0 loop { $n = step() }") {
        Err(e) => assert!(matches!(e.item, Error::Interrupted)),
        other => panic!("got {:?}", other),
    }
    let last = ctx.stack[0].get(&String::from("n"));
    assert!(matches!(last, Some(Value::Int(3))));
}

#[test]
fn a_node_is_not_evaluated_once_the_flag_was_seen_set() {
    let mut ctx = context();
    let ast = parse("$a = 1").unwrap();
    match ctx.eval_node(true, &ast) {
        Err(e) => {
            assert!(matches!(e.item, Error::Interrupted));
            assert_eq!(e.span, 0..6);
        }
        other => panic!("got {:?}", other),
    }
    assert!(ctx.stack[0].get(&String::from("a")).is_none());
    assert_eq!(ctx.budget, u64::MAX);
    assert!(matches!(ctx.eval_node(false, &ast), Ok(Value::Nil)));
    assert!(matches!(ctx.stack[0].get(&String::from("a")), Some(Value::Int(1))));
}

#[test]
fn the_budget_interrupts_an_endless_loop() {
    let mut ctx = context();
    ctx.budget = 1000;
    match run_in(&mut ctx, "loop { }") {
        Err(e) => assert!(matches!(e.item, Error::Interrupted)),
        other => panic!("got {:?}", other),
    }
    assert_eq!(ctx.budget, 0);
    ctx.budget = 3;
    assert!(matches!(run_in(&mut ctx, "1"), Ok(Value::Int(1))));
    assert_eq!(ctx.budget, 1);
}

#[test]
fn the_stack_is_as_deep_after_an_error_as_before() {
    let mut ctx = context();
    assert!(run_in(&mut ctx, "fn bad() { return 1 + \"a\" } bad()").is_err());
    assert_eq!(ctx.stack.len(), 1);
}

#[test]
fn round_trip_through_tokens() {
    let src = "fn add($a, $b) {\n;return $a + $b # sum\n}\n$o = {\"k\": add(1, 2)}\nif $o.$k == 3 { print \"ok\" }\n";
    let from_text = parse(src).unwrap();
    let tokens: Vec<Token> = get_tokens(src).into_iter().map(|t| t.unwrap()).collect();
    let from_tokens = parse_tokens(tokens).unwrap();
    assert_eq!(format!("{:?}", shape(&from_text)), format!("{:?}", shape(&from_tokens)));
    assert_eq!(from_text.span, 0..src.len() - 1);
    assert_eq!(from_tokens.span.start, 0);
}

fn shape(e: &Spanned<Expression>) -> Spanned<Expression> {
    let b = |x: &Spanned<Expression>| Box::new(shape(x));
    let item = match &e.item {
        Expression::Call { expr, args } => {
            Expression::Call { expr: b(expr), args: args.iter().map(shape).collect() }
        }
        Expression::Assignment { expr, value } => {
            Expression::Assignment { expr: b(expr), value: b(value) }
        }
        Expression::ObjDef { object } => Expression::ObjDef {
            object: object.iter().map(|(k, v)| (shape(k), shape(v))).collect(),
        },
        Expression::Return { value } => Expression::Return { value: b(value) },
        Expression::If { cond, body } => Expression::If { cond: b(cond), body: b(body) },
        Expression::LoopFinite { iters, body } => {
            Expression::LoopFinite { iters: b(iters), body: b(body) }
        }
        Expression::LoopInfinite { body } => Expression::LoopInfinite { body: b(body) },
        Expression::For { var, start, end, step, body } => Expression::For {
            var: var.clone(),
            start: b(start),
            end: b(end),
            step: step.as_ref().map(|s| b(s)),
            body: b(body),
        },
        Expression::While { cond, body } => Expression::While { cond: b(cond), body: b(body) },
        Expression::FnDef { name, args, body } => {
            Expression::FnDef { name: name.clone(), args: args.clone(), body: b(body) }
        }
        Expression::Negation(a) => Expression::Negation(b(a)),
        Expression::Multiply(x, y) => Expression::Multiply(b(x), b(y)),
        Expression::Division(x, y) => Expression::Division(b(x), b(y)),
        Expression::Addition(x, y) => Expression::Addition(b(x), b(y)),
        Expression::Subtraction(x, y) => Expression::Subtraction(b(x), b(y)),
        Expression::Eq(x, y) => Expression::Eq(b(x), b(y)),
        Expression::Neq(x, y) => Expression::Neq(b(x), b(y)),
        Expression::Lt(x, y) => Expression::Lt(b(x), b(y)),
        Expression::Gt(x, y) => Expression::Gt(b(x), b(y)),
        Expression::Lte(x, y) => Expression::Lte(b(x), b(y)),
        Expression::Gte(x, y) => Expression::Gte(b(x), b(y)),
        Expression::Variable { parent, name } => Expression::Variable {
            parent: parent.as_ref().map(|p| b(p)),
            name: name.clone(),
        },
        Expression::Block(items) => Expression::Block(items.iter().map(shape).collect()),
        other => other.clone(),
    };
    Spanned::new(item, 0..0)
}

#[test]
fn spanned_values_compare_by_their_items() {
    assert!(Spanned::new(1, 0..1) == Spanned::new(1, 5..9));
    assert!(Spanned::new(1, 0..1) != Spanned::new(2, 0..1));
}

struct Recorder {
    prefix: String,
}

impl LibraryContext for Recorder {
    fn gives(
        &self,
        _name: &str,
        _this: FuncThisObject,
        _args: NativeFuncArgs,
        _answer: NativeFuncReturn,
    ) -> bool {
        true
    }

    fn call(
        &mut self,
        name: &str,
        this: FuncThisObject,
        args: NativeFuncArgs,
        _objects: &mut ObjectStore,
        host: &mut Box<dyn Host>,
    ) -> NativeFuncReturn {
        let shown: Vec<String> = args.iter().map(|v| v.to_text(host)).collect();
        let on = match this {
            Some(object) => format!("{}", object.id),
            None => String::from("-"),
        };
        Ok(Value::String(format!("{}:{}:{}:{}", self.prefix, name, on, shown.join(","))))
    }
}

fn recorder_library(name: &str, prefix: &str) -> Library {
    let mut scope = Scope::new();
    for bound in [String::from("say"), format!("{}_say", name)] {
        scope.insert(
            bound,
            Value::Callable(Callable::NativeFunc(NativeFunc {
                this: None,
                library: String::from(name),
                name: String::from("say"),
            })),
        );
    }
    scope.insert(
        String::from("on_object"),
        Value::Callable(Callable::NativeFunc(NativeFunc {
            this: Some(ObjectRef { id: 7 }),
            library: String::from(name),
            name: String::from("told"),
        })),
    );
    Library {
        name: String::from(name),
        scope,
        context: Box::new(Recorder { prefix: String::from(prefix) }),
    }
}

#[test]
fn a_library_is_asked_for_the_function_with_its_object_and_arguments() {
    let mut ctx = context();
    ctx.import_library(recorder_library("rec", "r"), false);
    match run_in(&mut ctx, "say(1, \"a\", 2 + 3)") {
        Ok(Value::String(s)) => assert_eq!(s, "r:say:-:1,a,5"),
        other => panic!("got {:?}", other),
    }
    match run_in(&mut ctx, "say()") {
        Ok(Value::String(s)) => assert_eq!(s, "r:say:-:"),
        other => panic!("got {:?}", other),
    }
    match run_in(&mut ctx, "on_object(\"x\", 2)") {
        Ok(Value::String(s)) => assert_eq!(s, "r:told:7:x,2"),
        other => panic!("got {:?}", other),
    }
}

#[test]
fn each_library_runs_with_its_own_state() {
    let mut ctx = context();
    ctx.import_library(recorder_library("first", "one"), false);
    ctx.import_library(recorder_library("second", "two"), false);
    assert_eq!(ctx.libctx.len(), 3);
    match run_in(&mut ctx, "first_say(1)") {
        Ok(Value::String(s)) => assert_eq!(s, "one:say:-:1"),
        other => panic!("got {:?}", other),
    }
    match run_in(&mut ctx, "second_say(2)") {
        Ok(Value::String(s)) => assert_eq!(s, "two:say:-:2"),
        other => panic!("got {:?}", other),
    }
    ctx.import_library(recorder_library("first", "new"), false);
    assert_eq!(ctx.libctx.len(), 3);
    match run_in(&mut ctx, "first_say(3)") {
        Ok(Value::String(s)) => assert_eq!(s, "new:say:-:3"),
        other => panic!("got {:?}", other),
    }
    match run_in(&mut ctx, "second_say(4)") {
        Ok(Value::String(s)) => assert_eq!(s, "two:say:-:4"),
        other => panic!("got {:?}", other),
    }
}

#[test]
fn floats_enter_an_operation_in_source_order() {
    match run("10 - 2.5") {
        Ok(Value::Float(x)) => assert_eq!(x, float(7.5)),
        other => panic!("got {:?}", other),
    }
    match run("2.5 - 10") {
        Ok(Value::Float(x)) => assert_eq!(x, float(-7.5)),
        other => panic!("got {:?}", other),
    }
    match run("1 / 4.0") {
        Ok(Value::Float(x)) => assert_eq!(x, float(0.25)),
        other => panic!("got {:?}", other),
    }
    match run("4.0 / 1") {
        Ok(Value::Float(x)) => assert_eq!(x, float(4.0)),
        other => panic!("got {:?}", other),
    }
    match run("1.0 / 0") {
        Ok(Value::Float(x)) => assert_eq!(x, float(f64::INFINITY)),
        other => panic!("got {:?}", other),
    }
    assert!(matches!(run("3 < 2.5"), Ok(Value::Bool(false))));
    assert!(matches!(run("2.5 < 3"), Ok(Value::Bool(true))));
    assert!(matches!(run("3 > 2.5"), Ok(Value::Bool(true))));
    assert!(matches!(run("3.5 <= 3"), Ok(Value::Bool(false))));
}

#[test]
fn a_native_function_called_on_values() {
    let mut ctx = context();
    ctx.import_library(recorder_library("rec", "r"), false);
    let func = NativeFunc {
        this: Some(ObjectRef { id: 2 }),
        library: String::from("rec"),
        name: String::from("turn"),
    };
    match ctx.call_native(&func, vec![Value::Int(90), Value::Bool(true)], 3..8) {
        Ok(Value::String(s)) => assert_eq!(s, "r:turn:2:90,true"),
        other => panic!("got {:?}", other),
    }
    let base = NativeFunc { this: None, library: String::from("std"), name: String::from("int") };
    assert!(matches!(
        ctx.call_native(&base, vec![Value::String(String::from("12"))], 0..1),
        Ok(Value::Int(12))
    ));
    match ctx.call_native(&base, Vec::new(), 4..6) {
        Err(e) => {
            assert!(matches!(e.item, Error::RuntimeError(RuntimeError::InvalidArgCount(0, 1))));
            assert_eq!(e.span, 4..6);
        }
        other => panic!("got {:?}", other),
    }
    let lost = NativeFunc { this: None, library: String::from("gone"), name: String::from("f") };
    match ctx.call_native(&lost, Vec::new(), 1..2) {
        Err(e) => {
            assert!(matches!(
                e.item,
                Error::RuntimeError(RuntimeError::NativeLibraryError(ref m)) if m == "gone"
            ));
            assert_eq!(e.span, 1..2);
        }
        other => panic!("got {:?}", other),
    }
    assert_eq!(ctx.stack.len(), 1);
}
