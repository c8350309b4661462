//! Helpers for writing native functions: checking arguments against a
//! schema, finding the object a method was called on, and making the
//! values under which a library offers its functions.

use vstd::prelude::*;
use vstd::string::StringExecFns;
use crate::error::{RuntimeError, RuntimeErrorView};
use crate::scope::binding;
use crate::value::{
    Callable, CallableView, FuncThisObject, HashableValue, HashableValueView, Host, NativeFunc,
    NativeFuncArgs, NativeFuncView, ObjectStore, Value, ValueView, values_view,
};

verus! {

/// The type that an argument of a native function must have.
#[derive(Clone, Copy, Debug, PartialEq, Eq, Structural)]
pub enum ArgKind {
    String,
    Int,
    /// A float; an integer is taken too and made a float.
    Float,
    Object,
    Image,
    /// Anything.
    Other,
}

/// What a native function asks of one argument: its type, and the value
/// that stands in where the argument is left out.
#[derive(Debug)]
pub struct ArgTypeSpec {
    pub arg_type: ArgKind,
    pub default_value: Option<Value>,
}

pub struct ArgTypeSpecView {
    pub arg_type: ArgKind,
    pub default_value: Option<ValueView>,
}

impl View for ArgTypeSpec {
    type V = ArgTypeSpecView;

    open spec fn view(&self) -> ArgTypeSpecView {
        ArgTypeSpecView {
            arg_type: self.arg_type,
            default_value: match self.default_value {
                Some(v) => Some(v@),
                None => None,
            },
        }
    }
}

/// The views of a schema.
pub open spec fn specs_view(specs: Seq<ArgTypeSpec>) -> Seq<ArgTypeSpecView> {
    Seq::new(specs.len(), |i: int| specs[i]@)
}

/// The arguments with defaults filled in. The schema is gone through in
/// order up to `upto`: where an entry has a default and there are not yet
/// arguments up to its place, its default is added at the end.
pub open spec fn with_defaults(specs: Seq<ArgTypeSpecView>, args: Seq<ValueView>, upto: int) -> Seq<
    ValueView,
>
    decreases upto,
{
    if upto <= 0 || upto > specs.len() {
        args
    } else {
        let before = with_defaults(specs, args, upto - 1);
        match specs[upto - 1].default_value {
            Some(v) => if before.len() < upto {
                before.push(v)
            } else {
                before
            },
            None => before,
        }
    }
}

/// Whether a value has the type that is asked for.
pub open spec fn fits(kind: ArgKind, v: ValueView) -> bool {
    match kind {
        ArgKind::String => v is String,
        ArgKind::Int => v is Int,
        ArgKind::Float => v is Int || v is Float,
        ArgKind::Object => v is Object,
        ArgKind::Image => v is Image,
        ArgKind::Other => true,
    }
}

/// The first place, from `from` on, whose argument does not have the type
/// that the schema asks for.
pub open spec fn first_misfit(specs: Seq<ArgTypeSpecView>, args: Seq<ValueView>, from: int) -> Option<
    int,
>
    decreases specs.len() - from,
{
    if from < 0 || from >= specs.len() || from >= args.len() {
        None
    } else if !fits(specs[from].arg_type, args[from]) {
        Some(from)
    } else {
        first_misfit(specs, args, from + 1)
    }
}

/// Whether checked arguments are what the schema makes of given ones: the
/// same values, but that where a float is asked for and an integer given,
/// the float stands that the host gives for the integer.
pub open spec fn narrowed(
    specs: Seq<ArgTypeSpecView>,
    given: Seq<ValueView>,
    checked: Seq<ValueView>,
    host: &Box<dyn Host>,
) -> bool {
    &&& checked.len() == given.len()
    &&& forall|i: int|
        0 <= i < given.len() && i < specs.len() ==> if specs[i].arg_type == ArgKind::Float
            && given[i] is Int {
            (#[trigger] checked[i]) == ValueView::Float(host.float_of(given[i]->Int_0))
        } else {
            checked[i] == given[i]
        }
}

/// What checking arguments against a schema gives, where it fails: a wrong
/// number of arguments after the defaults were filled in, or else the first
/// argument of a wrong type.
pub open spec fn check_fault(specs: Seq<ArgTypeSpecView>, args: Seq<ValueView>) -> Option<
    RuntimeErrorView,
> {
    let filled = with_defaults(specs, args, specs.len() as int);
    if filled.len() != specs.len() {
        Some(RuntimeErrorView::InvalidArgCount(filled.len() as usize, specs.len() as usize))
    } else {
        match first_misfit(specs, filled, 0) {
            Some(at) => Some(RuntimeErrorView::InvalidArgType(at as usize)),
            None => None,
        }
    }
}

fn kind_fits(kind: ArgKind, v: &Value) -> (r: bool)
    ensures
        r == fits(kind, v@),
{
    match kind {
        ArgKind::String => matches!(v, Value::String(_)),
        ArgKind::Int => matches!(v, Value::Int(_)),
        ArgKind::Float => matches!(v, Value::Int(_)) || matches!(v, Value::Float(_)),
        ArgKind::Object => matches!(v, Value::Object(_)),
        ArgKind::Image => matches!(v, Value::Image(_)),
        ArgKind::Other => true,
    }
}

/// Checks the arguments of a native function against its schema. Defaults
/// are filled in for arguments that were left out, the number of arguments
/// must then be that of the schema, and each argument must have the type
/// asked for. Gives the arguments back, defaults among them.
pub fn check_args(specs: &Vec<ArgTypeSpec>, args: NativeFuncArgs, host: &Box<dyn Host>) -> (r:
    Result<Vec<Value>, RuntimeError>)
    ensures
        match check_fault(specs_view(specs@), values_view(args@)) {
            Some(e) => r matches Err(x) && x@ == e,
            None => r matches Ok(checked) && narrowed(
                specs_view(specs@),
                with_defaults(specs_view(specs@), values_view(args@), specs.len() as int),
                values_view(checked@),
                host,
            ) && checked.len() == specs.len(),
        },
{
    let ghost schema = specs_view(specs@);
    let ghost given = values_view(args@);
    let mut values = args;
    let mut pos: usize = 0;
    while pos < specs.len()
        invariant
            pos <= specs.len(),
            schema == specs_view(specs@),
            values_view(values@) == with_defaults(schema, given, pos as int),
        decreases specs.len() - pos,
    {
        match &specs[pos].default_value {
            Some(v) => {
                if values.len() < pos + 1 {
                    let ghost before = values_view(values@);
                    values.push(v.clone());
                    proof {
                        assert(values_view(values@) =~= before.push(v@));
                    }
                }
            },
            None => {},
        }
        pos += 1;
    }
    let ghost filled = values_view(values@);
    if values.len() != specs.len() {
        return Err(RuntimeError::InvalidArgCount(values.len(), specs.len()));
    }
    let mut i: usize = 0;
    while i < specs.len()
        invariant
            i <= specs.len(),
            values.len() == specs.len(),
            schema == specs_view(specs@),
            given == values_view(args@),
            filled == with_defaults(schema, given, specs.len() as int),
            first_misfit(schema, filled, 0) == first_misfit(schema, filled, i as int),
            filled.len() == specs.len(),
            values_view(values@).len() == filled.len(),
            forall|j: int|
                0 <= j < filled.len() ==> if j < i && schema[j].arg_type == ArgKind::Float
                    && filled[j] is Int {
                    (#[trigger] values_view(values@)[j]) == ValueView::Float(
                        host.float_of(filled[j]->Int_0),
                    )
                } else {
                    values_view(values@)[j] == filled[j]
                },
        decreases specs.len() - i,
    {
        proof {
            assert(values_view(values@)[i as int] == filled[i as int]);
            assert(values[i as int]@ == values_view(values@)[i as int]);
            assert(schema[i as int] == specs[i as int]@);
        }
        if !kind_fits(specs[i].arg_type, &values[i]) {
            return Err(RuntimeError::InvalidArgType(i));
        }
        let promote = match specs[i].arg_type {
            ArgKind::Float => match &values[i] {
                Value::Int(n) => Some(*n),
                _ => None,
            },
            _ => None,
        };
        match promote {
            Some(n) => {
                let ghost before = values_view(values@);
                let made = Value::Float(host.float_from_int(n));
                let ghost made_view = made@;
                values.set(i, made);
                proof {
                    assert(values_view(values@) =~= before.update(i as int, made_view));
                }
            },
            None => {},
        }
        i += 1;
    }
    Ok(values)
}

/// What a library is asked when one of its functions is called: the name
/// of the function, the object that the function was reached through, and
/// the evaluated arguments in their order.
#[derive(Debug)]
pub struct NativeRequest {
    pub name: String,
    pub this: FuncThisObject,
    pub args: NativeFuncArgs,
}

pub struct NativeRequestView {
    pub name: Seq<char>,
    pub this: FuncThisObject,
    pub args: Seq<ValueView>,
}

impl View for NativeRequest {
    type V = NativeRequestView;

    open spec fn view(&self) -> NativeRequestView {
        NativeRequestView { name: self.name@, this: self.this, args: values_view(self.args@) }
    }
}

/// The request that a call of a native function makes of its library: the
/// function's own name and object, and the arguments as they were given.
pub fn native_request(func: &NativeFunc, args: NativeFuncArgs) -> (r: NativeRequest)
    ensures
        r@ == (NativeRequestView {
            name: func@.name,
            this: func@.this,
            args: values_view(args@),
        }),
{
    NativeRequest { name: func.name.clone(), this: func.this, args: args }
}

/// The name of the field that holds the number of an object's sprite.
pub open spec fn sprite_field() -> Seq<char> {
    "sprite_id"@
}

/// The number of the sprite behind the object that a native function was
/// called on. A function that was called on no object, or on one that is
/// gone, was called as a function and not as a method.
pub open spec fn sprite_id_of(objects: Seq<crate::scope::TSObjectView>, this: FuncThisObject) -> Result<
    u32,
    RuntimeErrorView,
> {
    match this {
        None => Err(RuntimeErrorView::MethodCalledAsFunction),
        Some(obj) => if obj.id >= objects.len() {
            Err(RuntimeErrorView::MethodCalledAsFunction)
        } else {
            match binding(objects[obj.id as int].fields, HashableValueView::String(sprite_field())) {
                None => Err(RuntimeErrorView::InvalidIdentifier(sprite_field())),
                Some(ValueView::Int(id)) => if id >= 0 {
                    Ok(id as u32)
                } else {
                    Err(RuntimeErrorView::TypeError)
                },
                Some(_) => Err(RuntimeErrorView::TypeError),
            }
        },
    }
}

pub open spec fn id_result_view(r: Result<u32, RuntimeError>) -> Result<u32, RuntimeErrorView> {
    match r {
        Ok(id) => Ok(id),
        Err(e) => Err(e@),
    }
}

pub fn get_sprite_id(objects: &ObjectStore, this: FuncThisObject) -> (r: Result<u32, RuntimeError>)
    ensures
        id_result_view(r) == sprite_id_of(objects@, this),
{
    match this {
        None => Err(RuntimeError::MethodCalledAsFunction),
        Some(obj) => match objects.get(obj) {
            None => Err(RuntimeError::MethodCalledAsFunction),
            Some(object) => {
                let key = HashableValue::String(String::from_str("sprite_id"));
                match object.get(&key) {
                    None => Err(RuntimeError::InvalidIdentifier(String::from_str("sprite_id"))),
                    Some(Value::Int(id)) => if *id >= 0 {
                        Ok(*id as u32)
                    } else {
                        Err(RuntimeError::TypeError)
                    },
                    Some(_) => Err(RuntimeError::TypeError),
                }
            },
        },
    }
}

/// The value under which a library offers one of its functions.
pub open spec fn native_value(library: Seq<char>, name: Seq<char>, this: FuncThisObject) -> ValueView {
    ValueView::Callable(
        CallableView::NativeFunc(NativeFuncView { this: this, library: library, name: name }),
    )
}

/// The values under which a library offers functions, each bound to its
/// name, in order; `this` is the object that the functions belong to, if
/// they are methods.
pub fn funcmap(library: &str, this: FuncThisObject, names: &Vec<String>) -> (r: Vec<(String, Value)>)
    ensures
        r.len() == names.len(),
        forall|i: int|
            0 <= i < names.len() ==> (#[trigger] r[i]).0@ == names[i]@ && r[i].1@ == native_value(
                library@,
                names[i]@,
                this,
            ),
{
    let mut out: Vec<(String, Value)> = Vec::new();
    let mut i: usize = 0;
    while i < names.len()
        invariant
            i <= names.len(),
            out.len() == i,
            forall|j: int|
                0 <= j < i ==> (#[trigger] out[j]).0@ == names[j]@ && out[j].1@ == native_value(
                    library@,
                    names[j]@,
                    this,
                ),
        decreases names.len() - i,
    {
        let value = Value::Callable(
            Callable::NativeFunc(
                NativeFunc { this: this, library: library.to_owned(), name: names[i].clone() },
            ),
        );
        out.push((names[i].clone(), value));
        i += 1;
    }
    out
}

} // verus!
