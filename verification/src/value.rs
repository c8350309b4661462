//! Runtime values, objects, and what a host program supplies to the
//! interpreter: native libraries, floating-point arithmetic and a console.

use vstd::prelude::*;
use vstd::string::StringExecFns;
use crate::ast::{Expression, ExprView, Spanned, clone_names, names_view};
use crate::error::{RuntimeError, RuntimeErrorView};
use crate::text::{int_text, int_to_string};

verus! {

/// A floating-point number, carried as its IEEE 754 double-precision bit
/// pattern. The library moves such numbers around and decides when they are
/// combined; the arithmetic itself is done by the [`Host`].
#[derive(Clone, Copy, Debug, PartialEq, Eq, Hash, Structural)]
pub struct Float {
    pub bits: u64,
}

pub const FLOAT_SIGN_BIT: u64 = 0x8000_0000_0000_0000u64;

impl Float {
    /// The number with its sign flipped: the sign bit of the pattern is
    /// inverted and nothing else changes.
    pub open spec fn spec_negated(self) -> Float {
        Float { bits: self.bits ^ FLOAT_SIGN_BIT }
    }

    pub fn negated(self) -> (r: Float)
        ensures
            r == self.spec_negated(),
    {
        Float { bits: self.bits ^ FLOAT_SIGN_BIT }
    }
}

/// How two floating-point numbers compare when they can be compared.
#[derive(Clone, Copy, Debug, PartialEq, Eq, Structural)]
pub enum Order {
    Less,
    Equal,
    Greater,
}

/// A handle to an object of an [`ObjectStore`]. Copies of a handle name the
/// same object.
#[derive(Clone, Copy, Debug, PartialEq, Eq, Hash, Structural)]
pub struct ObjectRef {
    pub id: usize,
}

/// The object a native function was called on, if it was called as a method.
pub type FuncThisObject = Option<ObjectRef>;

pub type NativeFuncArgs = Vec<Value>;

pub type NativeFuncReturn = Result<Value, RuntimeError>;

pub type NativeFuncCtxArg = Box<dyn LibraryContext>;

/// A function of a native library, named by the library and its own name.
#[derive(Debug)]
pub struct NativeFunc {
    pub this: FuncThisObject,
    pub library: String,
    pub name: String,
}

pub struct NativeFuncView {
    pub this: FuncThisObject,
    pub library: Seq<char>,
    pub name: Seq<char>,
}

/// A function defined by the program.
#[derive(Debug)]
pub struct TSFunc {
    pub body: Spanned<Expression>,
    pub args: Vec<String>,
}

pub struct TSFuncView {
    pub body: Spanned<ExprView>,
    pub args: Seq<Seq<char>>,
}

#[derive(Debug)]
pub enum Callable {
    Function(Box<TSFunc>),
    NativeFunc(NativeFunc),
}

pub enum CallableView {
    Function(TSFuncView),
    NativeFunc(NativeFuncView),
}

/// The values that can key a field of an object.
#[derive(Debug, PartialEq, Eq, Hash)]
pub enum HashableValue {
    String(String),
    Int(i32),
}

pub enum HashableValueView {
    String(Seq<char>),
    Int(i32),
}

#[derive(Debug)]
pub enum Value {
    Int(i32),
    Float(Float),
    String(String),
    /// The name of an image; kept apart from ordinary text.
    Image(String),
    Bool(bool),
    Key(String),
    Callable(Callable),
    Object(ObjectRef),
    /// What `return` evaluates to: the returned value on its way up to the
    /// call it returns from.
    EvaluatedReturn(Box<Value>),
    /// What `break` evaluates to.
    Break,
    Nil,
}

pub enum ValueView {
    Int(i32),
    Float(Float),
    String(Seq<char>),
    Image(Seq<char>),
    Bool(bool),
    Key(Seq<char>),
    Callable(CallableView),
    Object(ObjectRef),
    EvaluatedReturn(Box<ValueView>),
    Break,
    Nil,
}

impl View for NativeFunc {
    type V = NativeFuncView;

    open spec fn view(&self) -> NativeFuncView {
        NativeFuncView { this: self.this, library: self.library@, name: self.name@ }
    }
}

impl View for TSFunc {
    type V = TSFuncView;

    open spec fn view(&self) -> TSFuncView {
        TSFuncView { body: self.body@, args: names_view(&self.args) }
    }
}

impl View for Callable {
    type V = CallableView;

    open spec fn view(&self) -> CallableView {
        match self {
            Callable::Function(f) => CallableView::Function(f@),
            Callable::NativeFunc(f) => CallableView::NativeFunc(f@),
        }
    }
}

impl View for HashableValue {
    type V = HashableValueView;

    open spec fn view(&self) -> HashableValueView {
        match self {
            HashableValue::String(s) => HashableValueView::String(s@),
            HashableValue::Int(i) => HashableValueView::Int(*i),
        }
    }
}

pub open spec fn value_view(v: &Value) -> ValueView
    decreases v,
{
    match v {
        Value::Int(i) => ValueView::Int(*i),
        Value::Float(x) => ValueView::Float(*x),
        Value::String(s) => ValueView::String(s@),
        Value::Image(s) => ValueView::Image(s@),
        Value::Bool(b) => ValueView::Bool(*b),
        Value::Key(s) => ValueView::Key(s@),
        Value::Callable(c) => ValueView::Callable(c@),
        Value::Object(o) => ValueView::Object(*o),
        Value::EvaluatedReturn(inner) => ValueView::EvaluatedReturn(Box::new(value_view(inner))),
        Value::Break => ValueView::Break,
        Value::Nil => ValueView::Nil,
    }
}

impl View for Value {
    type V = ValueView;

    open spec fn view(&self) -> ValueView {
        value_view(self)
    }
}

/// The views of a list of values, in order.
pub open spec fn values_view(v: Seq<Value>) -> Seq<ValueView> {
    Seq::new(v.len(), |i: int| v[i]@)
}

impl Clone for NativeFunc {
    fn clone(&self) -> (r: Self)
        ensures
            r@ == self@,
    {
        NativeFunc { this: self.this, library: self.library.clone(), name: self.name.clone() }
    }
}

impl Clone for TSFunc {
    fn clone(&self) -> (r: Self)
        ensures
            r@ == self@,
    {
        TSFunc { body: self.body.clone(), args: clone_names(&self.args) }
    }
}

impl Clone for Callable {
    fn clone(&self) -> (r: Self)
        ensures
            r@ == self@,
    {
        match self {
            Callable::Function(f) => {
                let g: &TSFunc = &**f;
                Callable::Function(Box::new(g.clone()))
            },
            Callable::NativeFunc(f) => Callable::NativeFunc(f.clone()),
        }
    }
}

impl Clone for HashableValue {
    fn clone(&self) -> (r: Self)
        ensures
            r@ == self@,
    {
        match self {
            HashableValue::String(s) => HashableValue::String(s.clone()),
            HashableValue::Int(i) => HashableValue::Int(*i),
        }
    }
}

fn clone_value(v: &Value) -> (r: Value)
    ensures
        r@ == v@,
    decreases v,
{
    match v {
        Value::Int(i) => Value::Int(*i),
        Value::Float(x) => Value::Float(*x),
        Value::String(s) => Value::String(s.clone()),
        Value::Image(s) => Value::Image(s.clone()),
        Value::Bool(b) => Value::Bool(*b),
        Value::Key(s) => Value::Key(s.clone()),
        Value::Callable(c) => Value::Callable(c.clone()),
        Value::Object(o) => Value::Object(*o),
        Value::EvaluatedReturn(inner) => Value::EvaluatedReturn(Box::new(clone_value(inner))),
        Value::Break => Value::Break,
        Value::Nil => Value::Nil,
    }
}

impl Clone for Value {
    fn clone(&self) -> (r: Self)
        ensures
            r@ == self@,
    {
        clone_value(self)
    }
}

/// The name of a value's type, as error messages give it.
pub open spec fn kind_name(v: ValueView) -> Seq<char> {
    match v {
        ValueView::Int(_) => "int"@,
        ValueView::Float(_) => "float"@,
        ValueView::String(_) => "string"@,
        ValueView::Image(_) => "image"@,
        ValueView::Bool(_) => "bool"@,
        ValueView::Key(_) => "key"@,
        ValueView::Callable(_) => "callable"@,
        ValueView::Object(_) => "object"@,
        ValueView::EvaluatedReturn(_) => "return"@,
        ValueView::Break => "break"@,
        ValueView::Nil => "none"@,
    }
}

/// What a value is narrowed to by [`Value::try_into_int`].
pub open spec fn int_of(v: ValueView) -> Result<i32, RuntimeErrorView> {
    match v {
        ValueView::Int(i) => Ok(i),
        _ => Err(RuntimeErrorView::TypeError),
    }
}

/// What a value is narrowed to by [`Value::try_into_float`]: an integer is
/// not widened here.
pub open spec fn float_of(v: ValueView) -> Result<Float, RuntimeErrorView> {
    match v {
        ValueView::Float(x) => Ok(x),
        _ => Err(RuntimeErrorView::TypeError),
    }
}

/// The key that a value makes: text and integers only.
pub open spec fn key_of(v: ValueView) -> Result<HashableValueView, RuntimeErrorView> {
    match v {
        ValueView::String(s) => Ok(HashableValueView::String(s)),
        ValueView::Int(i) => Ok(HashableValueView::Int(i)),
        _ => Err(RuntimeErrorView::TypeHashUnsupported),
    }
}

/// The views of both sides of a `Result`.
pub open spec fn result_view<T: View, E: View>(r: Result<T, E>) -> Result<T::V, E::V> {
    match r {
        Ok(t) => Ok(t@),
        Err(e) => Err(e@),
    }
}

/// The text of a value, as `print` shows it. The text of a float is the
/// host's to give: where a float is shown this is `None`.
pub open spec fn text_of(v: ValueView) -> Option<Seq<char>>
    decreases v,
{
    match v {
        ValueView::Int(i) => Some(int_text(i as int)),
        ValueView::Float(_) => None,
        ValueView::String(s) => Some(s),
        ValueView::Image(s) => Some("Image: "@ + s),
        ValueView::Bool(b) => Some(
            if b {
                "true"@
            } else {
                "false"@
            },
        ),
        ValueView::Key(s) => Some("Key: "@ + s),
        ValueView::Callable(CallableView::Function(_)) => Some("<Function>"@),
        ValueView::Callable(CallableView::NativeFunc(_)) => Some("<Native function>"@),
        ValueView::Object(_) => Some("<Object>"@),
        ValueView::EvaluatedReturn(inner) => match text_of(*inner) {
            Some(t) => Some("<Return value: "@ + t + ">"@),
            None => None,
        },
        ValueView::Break => Some("<Break>"@),
        ValueView::Nil => Some("None"@),
    }
}

fn value_to_text(v: &Value, host: &Box<dyn Host>) -> (r: String)
    ensures
        text_of(v@) matches Some(t) ==> r@ == t,
    decreases v,
{
    match v {
        Value::Int(i) => int_to_string(*i),
        Value::Float(x) => host.float_format(*x),
        Value::String(s) => s.clone(),
        Value::Image(s) => String::from_str("Image: ").concat(s.as_str()),
        Value::Bool(b) => if *b {
            String::from_str("true")
        } else {
            String::from_str("false")
        },
        Value::Key(s) => String::from_str("Key: ").concat(s.as_str()),
        Value::Callable(Callable::Function(_)) => String::from_str("<Function>"),
        Value::Callable(Callable::NativeFunc(_)) => String::from_str("<Native function>"),
        Value::Object(_) => String::from_str("<Object>"),
        Value::EvaluatedReturn(inner) => {
            let t = value_to_text(inner, host);
            let mut s = String::from_str("<Return value: ");
            s.append(t.as_str());
            s.append(">");
            s
        },
        Value::Break => String::from_str("<Break>"),
        Value::Nil => String::from_str("None"),
    }
}

impl Value {
    /// The text of the value, as `print` shows it. The host gives the text
    /// of a float.
    pub fn to_text(&self, host: &Box<dyn Host>) -> (r: String)
        ensures
            text_of(self@) matches Some(t) ==> r@ == t,
    {
        value_to_text(self, host)
    }

    pub fn type_to_string(&self) -> (r: &'static str)
        ensures
            r@ == kind_name(self@),
    {
        match self {
            Value::Int(_) => "int",
            Value::Float(_) => "float",
            Value::String(_) => "string",
            Value::Image(_) => "image",
            Value::Bool(_) => "bool",
            Value::Key(_) => "key",
            Value::Callable(_) => "callable",
            Value::Object(_) => "object",
            Value::EvaluatedReturn(_) => "return",
            Value::Break => "break",
            Value::Nil => "none",
        }
    }

    /// The integer that the value holds; a value of any other type is a
    /// type error.
    pub fn try_into_int(self) -> (r: Result<i32, RuntimeError>)
        ensures
            result_int_view(r) == int_of(self@),
    {
        match self {
            Value::Int(val) => Ok(val),
            _ => Err(RuntimeError::TypeError),
        }
    }

    /// The float that the value holds; a value of any other type, an
    /// integer too, is a type error.
    pub fn try_into_float(self) -> (r: Result<Float, RuntimeError>)
        ensures
            result_float_view(r) == float_of(self@),
    {
        match self {
            Value::Float(val) => Ok(val),
            _ => Err(RuntimeError::TypeError),
        }
    }
}

pub open spec fn result_int_view(r: Result<i32, RuntimeError>) -> Result<i32, RuntimeErrorView> {
    match r {
        Ok(i) => Ok(i),
        Err(e) => Err(e@),
    }
}

pub open spec fn result_float_view(r: Result<Float, RuntimeError>) -> Result<
    Float,
    RuntimeErrorView,
> {
    match r {
        Ok(x) => Ok(x),
        Err(e) => Err(e@),
    }
}

impl From<i32> for Value {
    fn from(val: i32) -> (r: Value) {
        Value::Int(val)
    }
}

impl vstd::std_specs::convert::FromSpecImpl<i32> for Value {
    open spec fn obeys_from_spec() -> bool {
        true
    }

    open spec fn from_spec(val: i32) -> Value {
        Value::Int(val)
    }
}

impl From<Float> for Value {
    fn from(val: Float) -> (r: Value) {
        Value::Float(val)
    }
}

impl vstd::std_specs::convert::FromSpecImpl<Float> for Value {
    open spec fn obeys_from_spec() -> bool {
        true
    }

    open spec fn from_spec(val: Float) -> Value {
        Value::Float(val)
    }
}

impl Value {
    /// The text as a value.
    pub fn from_text(val: &str) -> (r: Value)
        ensures
            r@ == ValueView::String(val@),
    {
        Value::String(val.to_owned())
    }
}

impl HashableValue {
    /// The text as a key.
    pub fn from_text(val: &str) -> (r: HashableValue)
        ensures
            r@ == HashableValueView::String(val@),
    {
        HashableValue::String(val.to_owned())
    }

    /// The key that a value makes. Only text and integers can key a field.
    pub fn try_from(val: Value) -> (r: Result<HashableValue, RuntimeError>)
        ensures
            result_view(r) == key_of(val@),
    {
        match val {
            Value::String(s) => Ok(HashableValue::String(s)),
            Value::Int(i) => Ok(HashableValue::Int(i)),
            _ => Err(RuntimeError::TypeHashUnsupported),
        }
    }

    /// Whether two keys are the same key.
    pub fn same(&self, other: &HashableValue) -> (r: bool)
        ensures
            r == (self@ == other@),
    {
        match self {
            HashableValue::String(a) => match other {
                HashableValue::String(b) => *a == *b,
                HashableValue::Int(_) => false,
            },
            HashableValue::Int(a) => match other {
                HashableValue::String(_) => false,
                HashableValue::Int(b) => *a == *b,
            },
        }
    }
}

/// What the program that embeds the interpreter supplies: floating-point
/// arithmetic and a console.
///
/// The arithmetic is a function of the numbers: each operation has a name
/// in contracts (`sum_of` for `float_add`, and so on), and the method gives
/// what the name stands for. Which float that is, is the host's to say and
/// is not verified here: a host gives each name the operation itself.
/// Nothing more is assumed of the arithmetic, and nothing at all of the
/// texts of floats, of the console and of the random numbers.
pub trait Host {
    /// The float that stands for an integer.
    spec fn float_of(&self, n: i32) -> Float;

    /// The sum of two floats.
    spec fn sum_of(&self, a: Float, b: Float) -> Float;

    /// The first float less the second.
    spec fn difference_of(&self, a: Float, b: Float) -> Float;

    /// The product of two floats.
    spec fn product_of(&self, a: Float, b: Float) -> Float;

    /// The first float divided by the second.
    spec fn quotient_of(&self, a: Float, b: Float) -> Float;

    /// How the first float stands to the second.
    spec fn order_of(&self, a: Float, b: Float) -> Option<Order>;

    /// The number that a text denotes, if it denotes one.
    fn float_parse(&self, text: &str) -> Option<Float>;

    /// The text of a number.
    fn float_format(&self, x: Float) -> String;

    /// The float that an integer is made where a float is asked for.
    fn float_from_int(&self, n: i32) -> (r: Float)
        ensures
            r == self.float_of(n),
    ;

    fn float_add(&self, a: Float, b: Float) -> (r: Float)
        ensures
            r == self.sum_of(a, b),
    ;

    fn float_sub(&self, a: Float, b: Float) -> (r: Float)
        ensures
            r == self.difference_of(a, b),
    ;

    fn float_mul(&self, a: Float, b: Float) -> (r: Float)
        ensures
            r == self.product_of(a, b),
    ;

    fn float_div(&self, a: Float, b: Float) -> (r: Float)
        ensures
            r == self.quotient_of(a, b),
    ;

    /// How `a` stands to `b`; nothing where they cannot be compared.
    fn float_compare(&self, a: Float, b: Float) -> (r: Option<Order>)
        ensures
            r == self.order_of(a, b),
    ;

    /// A random number between zero and one.
    fn float_random(&mut self) -> Float;

    /// Writes text to the console.
    fn print(&mut self, text: &str);

    /// Reads one line from the console; a failure is given as its message.
    fn read_line(&mut self) -> Result<String, String>;
}

/// The state of a native library, which runs the library's functions.
pub trait LibraryContext {
    /// Whether `answer` is an answer of this library, in this state, to a
    /// call of its function `name` on `this` with `args`. A library says
    /// here what it answers; one that says nothing allows every answer.
    spec fn gives(
        &self,
        name: &str,
        this: FuncThisObject,
        args: NativeFuncArgs,
        answer: NativeFuncReturn,
    ) -> bool;

    /// Runs the function `name` of this library on evaluated arguments.
    /// `this` is the object the function was reached through, if any;
    /// `objects` holds every object of the running program.
    fn call(
        &mut self,
        name: &str,
        this: FuncThisObject,
        args: NativeFuncArgs,
        objects: &mut ObjectStore,
        host: &mut Box<dyn Host>,
    ) -> (r: NativeFuncReturn)
        ensures
            old(self).gives(name, this, args, r),
    ;
}

/// An object: a table of fields. A field whose name is in `fields_props` is
/// a computed property: it holds a function of no arguments that is run
/// whenever the field is read.
#[derive(Debug)]
pub struct TSObject {
    pub fields: Vec<(HashableValue, Value)>,
    pub fields_props: Vec<String>,
}

/// Every object of a running program. Objects are shared by handle
/// ([`ObjectRef`]) and live as long as the store.
#[derive(Debug)]
pub struct ObjectStore {
    pub objects: Vec<TSObject>,
}

} // verus!
