//! The base library: conversions, random numbers and the console.

use vstd::prelude::*;
use vstd::string::StringExecFns;
use rand::Rng;
use crate::error::{RuntimeError, RuntimeErrorView};
use crate::interpreter::Library;
use crate::scope::Scope;
use crate::text::{digit_of, digit_value, string_chars, trimmed_text, without_trailing};
use crate::value::{
    Callable, CallableView, FuncThisObject, Host, LibraryContext, NativeFunc, NativeFuncArgs,
    NativeFuncReturn, NativeFuncView, ObjectStore, Value, ValueView, kind_name, result_view,
    text_of, values_view,
};

verus! {

/// Whether two texts are the same.
pub fn same_text(a: &str, b: &str) -> (r: bool)
    ensures
        r == (a@ == b@),
{
    let x = a.to_owned();
    let y = b.to_owned();
    x == y
}

/// Why a text is no integer.
#[derive(Clone, Copy, Debug, PartialEq, Eq, Structural)]
pub enum IntFault {
    Empty,
    InvalidDigit,
    PosOverflow,
    NegOverflow,
}

/// Reads decimal digits from position `i` on, after `acc` was read: each
/// digit moves `acc` one place up, away from zero. The first character that
/// is no digit, or the first digit with which the number leaves the range
/// of `i32`, is the fault.
pub open spec fn digits_value(s: Seq<char>, i: int, acc: int, negative: bool) -> Result<
    int,
    IntFault,
>
    decreases s.len() - i,
{
    if i < 0 || i >= s.len() {
        Ok(acc)
    } else {
        match digit_value(s[i]) {
            None => Err(IntFault::InvalidDigit),
            Some(d) => {
                let next = if negative {
                    acc * 10 - d
                } else {
                    acc * 10 + d
                };
                if next > i32::MAX {
                    Err(IntFault::PosOverflow)
                } else if next < i32::MIN {
                    Err(IntFault::NegOverflow)
                } else {
                    digits_value(s, i + 1, next, negative)
                }
            },
        }
    }
}

/// The integer that a text denotes: decimal digits, with `+` or `-` before
/// them if wanted, and nothing else.
pub open spec fn int_of_text(s: Seq<char>) -> Result<int, IntFault> {
    if s.len() == 0 {
        Err(IntFault::Empty)
    } else if s[0] == '-' {
        if s.len() == 1 {
            Err(IntFault::InvalidDigit)
        } else {
            digits_value(s, 1, 0, true)
        }
    } else if s[0] == '+' {
        if s.len() == 1 {
            Err(IntFault::InvalidDigit)
        } else {
            digits_value(s, 1, 0, false)
        }
    } else {
        digits_value(s, 0, 0, false)
    }
}

pub open spec fn int_result_view(r: Result<i32, IntFault>) -> Result<int, IntFault> {
    match r {
        Ok(v) => Ok(v as int),
        Err(e) => Err(e),
    }
}

/// Reads the digits `chars[from..]` as a number, negative if asked.
pub fn read_digits(chars: &Vec<char>, from: usize, to: usize, negative: bool) -> (r: Result<
    i32,
    IntFault,
>)
    requires
        from <= to <= chars.len(),
    ensures
        int_result_view(r) == digits_value(chars@.subrange(0, to as int), from as int, 0, negative),
{
    let ghost s = chars@.subrange(0, to as int);
    let mut acc: i64 = 0;
    let mut i: usize = from;
    while i < to
        invariant
            from <= i <= to <= chars.len(),
            s == chars@.subrange(0, to as int),
            i32::MIN <= acc <= i32::MAX,
            digits_value(s, from as int, 0, negative) == digits_value(
                s,
                i as int,
                acc as int,
                negative,
            ),
        decreases to - i,
    {
        match digit_of(chars[i]) {
            None => {
                return Err(IntFault::InvalidDigit);
            },
            Some(d) => {
                let next: i64 = if negative {
                    acc * 10 - (d as i64)
                } else {
                    acc * 10 + (d as i64)
                };
                if next > i32::MAX as i64 {
                    return Err(IntFault::PosOverflow);
                }
                if next < i32::MIN as i64 {
                    return Err(IntFault::NegOverflow);
                }
                acc = next;
            },
        }
        i += 1;
    }
    Ok(acc as i32)
}

/// The integer that a text denotes.
pub fn parse_int(text: &str) -> (r: Result<i32, IntFault>)
    ensures
        int_result_view(r) == int_of_text(text@),
{
    let chars = string_chars(text);
    let n = chars.len();
    proof {
        assert(chars@.subrange(0, n as int) =~= text@);
    }
    if n == 0 {
        Err(IntFault::Empty)
    } else if chars[0] == '-' {
        if n == 1 {
            Err(IntFault::InvalidDigit)
        } else {
            read_digits(&chars, 1, n, true)
        }
    } else if chars[0] == '+' {
        if n == 1 {
            Err(IntFault::InvalidDigit)
        } else {
            read_digits(&chars, 1, n, false)
        }
    } else {
        read_digits(&chars, 0, n, false)
    }
}

/// What is said of a text that is no integer.
pub open spec fn int_fault_message(fault: IntFault) -> Seq<char> {
    match fault {
        IntFault::Empty => "cannot parse integer from empty string"@,
        IntFault::InvalidDigit => "invalid digit found in string"@,
        IntFault::PosOverflow => "number too large to fit in target type"@,
        IntFault::NegOverflow => "number too small to fit in target type"@,
    }
}

fn int_fault_text(fault: IntFault) -> (r: String)
    ensures
        r@ == int_fault_message(fault),
{
    match fault {
        IntFault::Empty => String::from_str("cannot parse integer from empty string"),
        IntFault::InvalidDigit => String::from_str("invalid digit found in string"),
        IntFault::PosOverflow => String::from_str("number too large to fit in target type"),
        IntFault::NegOverflow => String::from_str("number too small to fit in target type"),
    }
}

/// A text without the line feeds at its end.
pub open spec fn without_line_end(s: Seq<char>) -> Seq<char> {
    without_trailing(s, '\n')
}

pub fn trim_line_end(text: &str) -> (r: String)
    ensures
        r@ == without_line_end(text@),
{
    let chars = string_chars(text);
    proof {
        assert(chars@.subrange(0, chars.len() as int) =~= text@);
    }
    trimmed_text(&chars, 0, chars.len(), '\n')
}

/// The texts of the values, with one space between neighbours; `None` where
/// a float is among them, whose text is the host's to give.
pub open spec fn joined_text(args: Seq<ValueView>) -> Option<Seq<char>>
    decreases args.len(),
{
    if args.len() == 0 {
        Some(Seq::empty())
    } else if args.len() == 1 {
        text_of(args[0])
    } else {
        match (joined_text(args.drop_last()), text_of(args.last())) {
            (Some(a), Some(b)) => Some(a + " "@ + b),
            _ => None,
        }
    }
}

/// The line that `print` writes for its arguments.
pub fn join_texts(args: &Vec<Value>, host: &Box<dyn Host>) -> (r: String)
    ensures
        joined_text(values_view(args@)) matches Some(t) ==> r@ == t,
{
    let ghost all = values_view(args@);
    let mut out = String::new();
    let mut i: usize = 0;
    while i < args.len()
        invariant
            i <= args.len(),
            all == values_view(args@),
            joined_text(all.subrange(0, i as int)) matches Some(t) ==> out@ == t,
        decreases args.len() - i,
    {
        let t = args[i].to_text(host);
        proof {
            assert(all.subrange(0, i + 1).drop_last() =~= all.subrange(0, i as int));
            assert(all.subrange(0, i + 1).last() == args[i as int]@);
            if i == 0 {
                assert(all.subrange(0, 1)[0] == args[0]@);
                assert(out@ =~= Seq::<char>::empty());
                assert(Seq::<char>::empty() + t@ =~= t@);
            }
        }
        if i > 0 {
            out.append(" ");
        }
        out.append(t.as_str());
        i += 1;
    }
    proof {
        assert(all.subrange(0, args.len() as int) =~= all);
    }
    out
}

/// `RuntimeError::InvalidArgCount` unless there are `count` arguments.
pub fn check_argc(args: &Vec<Value>, count: usize) -> (r: Result<(), RuntimeError>)
    ensures
        r is Ok <==> args.len() == count,
        r matches Err(e) ==> e@ == RuntimeErrorView::InvalidArgCount(args.len(), count),
{
    if args.len() != count {
        Err(RuntimeError::InvalidArgCount(args.len(), count))
    } else {
        Ok(())
    }
}

/// `rand::thread_rng` and `Rng::gen_range` of the `rand` crate, on an
/// inclusive range of integers: the number drawn lies in the range. The
/// range must not be empty. (The generator is seeded by the system when a
/// thread first uses it.)
#[verifier::external_body]
fn random_in_range(min: i32, max: i32) -> (r: i32)
    requires
        min <= max,
    ensures
        min <= r <= max,
{
    rand::thread_rng().gen_range(min..=max)
}

/// What `int` gives for one argument: an integer as it is, the integer that
/// a text denotes, and an error for anything else.
pub open spec fn int_conversion(v: ValueView) -> Result<ValueView, RuntimeErrorView> {
    match v {
        ValueView::Int(i) => Ok(v),
        ValueView::String(s) => match int_of_text(s) {
            Ok(n) => Ok(ValueView::Int(n as i32)),
            Err(fault) => Err(RuntimeErrorView::TypeParseError(int_fault_message(fault))),
        },
        _ => Err(RuntimeErrorView::TypeParseUnsupported(kind_name(v), "int"@)),
    }
}

/// What a native function gives when it is called with the wrong number of
/// arguments.
pub open spec fn wrong_count(found: nat, expected: nat) -> Result<ValueView, RuntimeErrorView> {
    Err(RuntimeErrorView::InvalidArgCount(found as usize, expected as usize))
}

/// `int(x)`: converts its one argument to an integer.
pub fn integer(args: NativeFuncArgs) -> (r: NativeFuncReturn)
    ensures
        result_view(r) == if args.len() == 1 {
            int_conversion(args[0]@)
        } else {
            wrong_count(args.len() as nat, 1)
        },
{
    let mut args = args;
    check_argc(&args, 1)?;
    let value = args.remove(0);
    match value {
        Value::Int(i) => Ok(Value::Int(i)),
        Value::String(val) => match parse_int(val.as_str()) {
            Ok(n) => Ok(Value::Int(n)),
            Err(fault) => Err(RuntimeError::TypeParseError(int_fault_text(fault))),
        },
        _ => Err(
            RuntimeError::TypeParseUnsupported(
                value.type_to_string().to_owned(),
                String::from_str("int"),
            ),
        ),
    }
}

/// What is said of a text that is no float.
pub open spec fn float_fault_message(text: Seq<char>) -> Seq<char> {
    if text.len() == 0 {
        "cannot parse float from empty string"@
    } else {
        "invalid float literal"@
    }
}

/// What `float` gives for one argument, from what the host read in a text:
/// an integer as it is, the float that a text denotes, and an error for
/// anything else.
pub open spec fn float_conversion(v: ValueView, parsed: Option<crate::value::Float>) -> Result<
    ValueView,
    RuntimeErrorView,
> {
    match v {
        ValueView::Int(i) => Ok(v),
        ValueView::String(s) => match parsed {
            Some(x) => Ok(ValueView::Float(x)),
            None => Err(RuntimeErrorView::TypeParseError(float_fault_message(s))),
        },
        _ => Err(RuntimeErrorView::TypeParseUnsupported(kind_name(v), "float"@)),
    }
}

/// Finishes `float(x)` for the argument `value` with what the host read in
/// it, where it is a text.
pub fn finish_float(value: Value, parsed: Option<crate::value::Float>) -> (r: NativeFuncReturn)
    ensures
        result_view(r) == float_conversion(value@, parsed),
{
    match value {
        Value::Int(i) => Ok(Value::Int(i)),
        Value::String(val) => match parsed {
            Some(x) => Ok(Value::Float(x)),
            None => if val.as_str().is_empty() {
                Err(
                    RuntimeError::TypeParseError(
                        String::from_str("cannot parse float from empty string"),
                    ),
                )
            } else {
                Err(RuntimeError::TypeParseError(String::from_str("invalid float literal")))
            },
        },
        _ => Err(
            RuntimeError::TypeParseUnsupported(
                value.type_to_string().to_owned(),
                String::from_str("float"),
            ),
        ),
    }
}

/// `float(x)`: converts its one argument to a float. The host reads the
/// number in a text.
pub fn float(args: NativeFuncArgs, host: &Box<dyn Host>) -> (r: NativeFuncReturn)
    ensures
        args.len() != 1 ==> result_view(r) == wrong_count(args.len() as nat, 1),
        args.len() == 1 ==> exists|parsed: Option<crate::value::Float>|
            result_view(r) == float_conversion(args[0]@, parsed),
{
    let mut args = args;
    check_argc(&args, 1)?;
    let value = args.remove(0);
    let parsed = match &value {
        Value::String(val) => host.float_parse(val.as_str()),
        _ => None,
    };
    finish_float(value, parsed)
}

/// `string(x)`: the text of its one argument.
pub fn string(args: NativeFuncArgs, host: &Box<dyn Host>) -> (r: NativeFuncReturn)
    ensures
        args.len() != 1 ==> result_view(r) == wrong_count(args.len() as nat, 1),
        args.len() == 1 ==> r is Ok && r->Ok_0@ is String,
        args.len() == 1 ==> (text_of(args[0]@) matches Some(t) ==> result_view(r) == Ok::<
            ValueView,
            RuntimeErrorView,
        >(ValueView::String(t))),
{
    let mut args = args;
    check_argc(&args, 1)?;
    let value = args.remove(0);
    Ok(Value::String(value.to_text(host)))
}

pub open spec fn empty_range_message() -> Seq<char> {
    "cannot sample empty range"@
}

/// The bounds that `random(min, max)` draws between: both arguments must be
/// integers, and `min` must not be above `max`.
pub open spec fn random_bounds(min: ValueView, max: ValueView) -> Result<
    (i32, i32),
    RuntimeErrorView,
> {
    match min {
        ValueView::Int(a) => match max {
            ValueView::Int(b) => if a <= b {
                Ok((a, b))
            } else {
                Err(RuntimeErrorView::NativeLibraryError(empty_range_message()))
            },
            _ => Err(RuntimeErrorView::TypeError),
        },
        _ => Err(RuntimeErrorView::TypeError),
    }
}

/// `random()` is a float between zero and one, drawn by the host;
/// `random(min, max)` is an integer drawn from `min..=max`.
pub fn random(args: NativeFuncArgs, host: &mut Box<dyn Host>) -> (r: NativeFuncReturn)
    ensures
        args.len() == 0 ==> r is Ok && r->Ok_0@ is Float,
        args.len() != 0 && args.len() != 2 ==> result_view(r) == wrong_count(args.len() as nat, 2),
        args.len() == 2 ==> match random_bounds(args[0]@, args[1]@) {
            Ok((a, b)) => r matches Ok(v) && v@ is Int && a <= v@->Int_0 <= b,
            Err(e) => result_view(r) == Err::<ValueView, RuntimeErrorView>(e),
        },
{
    let mut args = args;
    if args.len() == 0 {
        Ok(Value::Float(host.float_random()))
    } else if args.len() == 2 {
        let min = args.remove(0).try_into_int()?;
        let max = args.remove(0).try_into_int()?;
        if min <= max {
            Ok(Value::Int(random_in_range(min, max)))
        } else {
            Err(RuntimeError::NativeLibraryError(String::from_str("cannot sample empty range")))
        }
    } else {
        Err(RuntimeError::InvalidArgCount(args.len(), 2))
    }
}

/// `print(a, b, ...)`: writes the texts of its arguments with spaces
/// between them.
pub fn print(args: NativeFuncArgs, host: &mut Box<dyn Host>) -> (r: NativeFuncReturn)
    ensures
        result_view(r) == Ok::<ValueView, RuntimeErrorView>(ValueView::Nil),
{
    let line = join_texts(&args, host);
    host.print(line.as_str());
    Ok(Value::Nil)
}

/// The line that `println` writes for its arguments: the line of `print`
/// and a line end.
pub fn join_line(args: &Vec<Value>, host: &Box<dyn Host>) -> (r: String)
    ensures
        joined_text(values_view(args@)) matches Some(t) ==> r@ == t + "\n"@,
{
    let mut line = join_texts(args, host);
    line.append("\n");
    line
}

/// `println(a, b, ...)`: as `print`, and ends the line.
pub fn println(args: NativeFuncArgs, host: &mut Box<dyn Host>) -> (r: NativeFuncReturn)
    ensures
        result_view(r) == Ok::<ValueView, RuntimeErrorView>(ValueView::Nil),
{
    let line = join_line(&args, host);
    host.print(line.as_str());
    Ok(Value::Nil)
}

/// The prompt of `readln`: the one argument, which must be a text and is
/// empty where it is left out.
pub open spec fn prompt_of(args: Seq<ValueView>) -> Result<Seq<char>, RuntimeErrorView> {
    if args.len() == 0 {
        Ok(Seq::empty())
    } else if args.len() != 1 {
        Err(RuntimeErrorView::InvalidArgCount(args.len() as usize, 1))
    } else {
        match args[0] {
            ValueView::String(s) => Ok(s),
            _ => Err(RuntimeErrorView::InvalidArgType(0)),
        }
    }
}

pub open spec fn prompt_view(r: Result<String, RuntimeError>) -> Result<
    Seq<char>,
    RuntimeErrorView,
> {
    match r {
        Ok(s) => Ok(s@),
        Err(e) => Err(e@),
    }
}

pub fn readln_prompt(args: &NativeFuncArgs) -> (r: Result<String, RuntimeError>)
    ensures
        prompt_view(r) == prompt_of(values_view(args@)),
{
    if args.len() == 0 {
        Ok(String::new())
    } else if args.len() != 1 {
        Err(RuntimeError::InvalidArgCount(args.len(), 1))
    } else {
        match &args[0] {
            Value::String(s) => Ok(s.clone()),
            _ => Err(RuntimeError::InvalidArgType(0)),
        }
    }
}

/// What `readln` gives from what the console gave: the line without the
/// line feeds at its end, or the console's failure.
pub open spec fn line_read(answer: Result<Seq<char>, Seq<char>>) -> Result<
    ValueView,
    RuntimeErrorView,
> {
    match answer {
        Ok(line) => Ok(ValueView::String(without_line_end(line))),
        Err(message) => Err(RuntimeErrorView::NativeLibraryError(message)),
    }
}

pub open spec fn answer_view(answer: Result<String, String>) -> Result<Seq<char>, Seq<char>> {
    match answer {
        Ok(s) => Ok(s@),
        Err(e) => Err(e@),
    }
}

pub fn finish_readln(answer: Result<String, String>) -> (r: NativeFuncReturn)
    ensures
        result_view(r) == line_read(answer_view(answer)),
{
    match answer {
        Ok(line) => Ok(Value::String(trim_line_end(line.as_str()))),
        Err(message) => Err(RuntimeError::NativeLibraryError(message)),
    }
}

/// `readln(prompt)`: writes the prompt, if there is one, and reads a line.
pub fn readln(args: NativeFuncArgs, host: &mut Box<dyn Host>) -> (r: NativeFuncReturn)
    ensures
        prompt_of(values_view(args@)) matches Err(e) ==> result_view(r) == Err::<
            ValueView,
            RuntimeErrorView,
        >(e),
        prompt_of(values_view(args@)) is Ok ==> exists|answer: Result<Seq<char>, Seq<char>>|
            result_view(r) == line_read(answer),
{
    let prompt = readln_prompt(&args)?;
    if !prompt.as_str().is_empty() {
        host.print(prompt.as_str());
    }
    let answer = host.read_line();
    let r = finish_readln(answer);
    proof {
        assert(result_view(r) == line_read(answer_view(answer)));
    }
    r
}

/// The functions of the base library, by name.
#[derive(Clone, Copy, Debug, PartialEq, Eq, Structural)]
pub enum StdFunction {
    Println,
    Print,
    Readln,
    Int,
    Float,
    String,
    Random,
}

/// The function of the base library that a name names.
pub open spec fn std_function_named(name: Seq<char>) -> Option<StdFunction> {
    if name == "println"@ {
        Some(StdFunction::Println)
    } else if name == "print"@ {
        Some(StdFunction::Print)
    } else if name == "readln"@ {
        Some(StdFunction::Readln)
    } else if name == "int"@ {
        Some(StdFunction::Int)
    } else if name == "float"@ {
        Some(StdFunction::Float)
    } else if name == "string"@ {
        Some(StdFunction::String)
    } else if name == "random"@ {
        Some(StdFunction::Random)
    } else {
        None
    }
}

pub fn find_std_function(name: &str) -> (r: Option<StdFunction>)
    ensures
        r == std_function_named(name@),
{
    if same_text(name, "println") {
        Some(StdFunction::Println)
    } else if same_text(name, "print") {
        Some(StdFunction::Print)
    } else if same_text(name, "readln") {
        Some(StdFunction::Readln)
    } else if same_text(name, "int") {
        Some(StdFunction::Int)
    } else if same_text(name, "float") {
        Some(StdFunction::Float)
    } else if same_text(name, "string") {
        Some(StdFunction::String)
    } else if same_text(name, "random") {
        Some(StdFunction::Random)
    } else {
        None
    }
}

/// What a function of the base library gives for evaluated arguments, as
/// far as the arguments decide it. Where the host decides (a line is read,
/// a number is drawn, a float is read or shown) this is `None`.
pub open spec fn std_answer(name: Seq<char>, args: Seq<ValueView>) -> Option<
    Result<ValueView, RuntimeErrorView>,
> {
    match std_function_named(name) {
        None => Some(Err(RuntimeErrorView::InvalidIdentifier(name))),
        Some(StdFunction::Println) | Some(StdFunction::Print) => Some(Ok(ValueView::Nil)),
        Some(StdFunction::Int) => Some(
            if args.len() == 1 {
                int_conversion(args[0])
            } else {
                wrong_count(args.len(), 1)
            },
        ),
        Some(StdFunction::String) => if args.len() != 1 {
            Some(wrong_count(args.len(), 1))
        } else {
            match text_of(args[0]) {
                Some(t) => Some(Ok(ValueView::String(t))),
                None => None,
            }
        },
        Some(StdFunction::Float) => if args.len() != 1 {
            Some(wrong_count(args.len(), 1))
        } else if args[0] is String {
            None
        } else {
            Some(float_conversion(args[0], None))
        },
        Some(StdFunction::Readln) => match prompt_of(args) {
            Err(e) => Some(Err(e)),
            Ok(_) => None,
        },
        Some(StdFunction::Random) => if args.len() == 0 {
            None
        } else if args.len() == 2 {
            match random_bounds(args[0], args[1]) {
                Err(e) => Some(Err(e)),
                Ok(_) => None,
            }
        } else {
            Some(wrong_count(args.len(), 2))
        },
    }
}

/// Runs the function `name` of the base library; a name that the library
/// does not have is an unknown identifier. What each function gives is
/// said at the function.
pub fn call_std(name: &str, args: NativeFuncArgs, host: &mut Box<dyn Host>) -> (r: NativeFuncReturn)
    ensures
        std_answer(name@, values_view(args@)) matches Some(answer) ==> result_view(r) == answer,
        std_function_named(name@) == Some(StdFunction::Float) && args.len() == 1 ==> exists|
            parsed: Option<crate::value::Float>,
        | result_view(r) == float_conversion(args[0]@, parsed),
        std_function_named(name@) == Some(StdFunction::String) && args.len() == 1 ==> r is Ok
            && r->Ok_0@ is String,
        std_function_named(name@) == Some(StdFunction::Random) && args.len() == 0 ==> r is Ok
            && r->Ok_0@ is Float,
        std_function_named(name@) == Some(StdFunction::Random) && args.len() == 2 ==> (random_bounds(
            args[0]@,
            args[1]@,
        ) matches Ok((a, b)) ==> r matches Ok(v) && v@ is Int && a <= v@->Int_0 <= b),
        std_function_named(name@) == Some(StdFunction::Readln) && prompt_of(values_view(args@))
            is Ok ==> exists|answer: Result<Seq<char>, Seq<char>>| result_view(r) == line_read(answer),
{
    proof {
        if args.len() > 0 {
            assert(values_view(args@)[0] == args[0]@);
        }
        if args.len() > 1 {
            assert(values_view(args@)[1] == args[1]@);
        }
    }
    match find_std_function(name) {
        Some(StdFunction::Println) => println(args, host),
        Some(StdFunction::Print) => print(args, host),
        Some(StdFunction::Readln) => readln(args, host),
        Some(StdFunction::Int) => integer(args),
        Some(StdFunction::Float) => float(args, host),
        Some(StdFunction::String) => string(args, host),
        Some(StdFunction::Random) => random(args, host),
        None => Err(RuntimeError::InvalidIdentifier(name.to_owned())),
    }
}

/// The state of the base library. It has none of its own: what its
/// functions need from outside, the host gives.
pub struct StdContext {}

impl LibraryContext for StdContext {
    /// The base library answers what [`std_answer`] says, where the
    /// arguments decide it.
    open spec fn gives(
        &self,
        name: &str,
        this: FuncThisObject,
        args: NativeFuncArgs,
        answer: NativeFuncReturn,
    ) -> bool {
        std_answer(name@, values_view(args@)) matches Some(decided) ==> result_view(answer)
            == decided
    }

    /// Runs the function `name` of the base library, as [`call_std`] does.
    /// The base library has no methods and keeps no objects: `this` plays
    /// no part, and the objects stay as they are.
    fn call(
        &mut self,
        name: &str,
        this: FuncThisObject,
        args: NativeFuncArgs,
        objects: &mut ObjectStore,
        host: &mut Box<dyn Host>,
    ) -> (r: NativeFuncReturn)
        ensures
            std_answer(name@, values_view(args@)) matches Some(answer) ==> result_view(r)
                == answer,
            std_function_named(name@) == Some(StdFunction::Float) && args.len() == 1 ==> exists|
                parsed: Option<crate::value::Float>,
            | result_view(r) == float_conversion(args[0]@, parsed),
            std_function_named(name@) == Some(StdFunction::String) && args.len() == 1 ==> r is Ok
                && r->Ok_0@ is String,
            std_function_named(name@) == Some(StdFunction::Random) && args.len() == 0 ==> r is Ok
                && r->Ok_0@ is Float,
            std_function_named(name@) == Some(StdFunction::Random) && args.len() == 2 ==> (
            random_bounds(args[0]@, args[1]@) matches Ok((a, b)) ==> r matches Ok(v) && v@ is Int
                && a <= v@->Int_0 <= b),
            std_function_named(name@) == Some(StdFunction::Readln) && prompt_of(
                values_view(args@),
            ) is Ok ==> exists|answer: Result<Seq<char>, Seq<char>>|
                result_view(r) == line_read(answer),
            *final(objects) == *old(objects),
            *final(self) == *old(self),
    {
        call_std(name, args, host)
    }
}

/// The name of the base library.
pub open spec fn std_name() -> Seq<char> {
    "std"@
}

/// The function `name` of the base library, as a value.
pub open spec fn std_function(name: Seq<char>) -> ValueView {
    ValueView::Callable(
        CallableView::NativeFunc(NativeFuncView { this: None, library: std_name(), name: name }),
    )
}

/// The names that the base library binds.
pub open spec fn std_vars() -> Map<Seq<char>, ValueView> {
    Map::<Seq<char>, ValueView>::empty().insert("println"@, std_function("println"@)).insert(
        "print"@,
        std_function("print"@),
    ).insert("readln"@, std_function("readln"@)).insert("int"@, std_function("int"@)).insert(
        "float"@,
        std_function("float"@),
    ).insert("string"@, std_function("string"@)).insert("random"@, std_function("random"@))
}

fn std_native(name: &str) -> (r: Value)
    ensures
        r@ == std_function(name@),
{
    Value::Callable(
        Callable::NativeFunc(
            NativeFunc { this: None, library: String::from_str("std"), name: name.to_owned() },
        ),
    )
}

/// The base library, ready to be imported.
pub fn init_library() -> (r: Library)
    ensures
        r.name@ == std_name(),
        r.scope@.vars == std_vars(),
        r.scope@.props == Set::<Seq<char>>::empty(),
{
    let mut scope = Scope::new();
    scope.insert(String::from_str("println"), std_native("println"));
    scope.insert(String::from_str("print"), std_native("print"));
    scope.insert(String::from_str("readln"), std_native("readln"));
    scope.insert(String::from_str("int"), std_native("int"));
    scope.insert(String::from_str("float"), std_native("float"));
    scope.insert(String::from_str("string"), std_native("string"));
    scope.insert(String::from_str("random"), std_native("random"));
    Library { name: String::from_str("std"), scope: scope, context: Box::new(StdContext {  }) }
}

} // verus!
