//! The evaluator: a walk over the syntax tree with an explicit stack of
//! scopes.

use vstd::prelude::*;
use vstd::string::StringExecFns;
use std::ops::Range;
use crate::ast::{
    Expression, ExprView, Spanned, clone_names, copy_span, expr_list_view, expr_pairs_view,
    names_view,
};
use crate::cancel::{CancellationToken, stop_requested};
use crate::error::{Error, ErrorView, RuntimeError, RuntimeErrorView};
use crate::operators::{MathOperator, eval_view, math_operation, negate};
use crate::scope::{Scope, ScopeView, TSObjectView, binding};
use crate::semantics::{
    Machine, found, holds_library, no_library, read_name, run, run_args, run_assignment,
    run_block, run_call, run_counted, run_for, run_for_loop, run_function, run_loop, run_native,
    run_object,
    run_operator, run_root, run_times, run_while,
};
use crate::native::native_request;
use crate::stdlib;
use crate::stdlib::call_std;
use crate::table::{bindings, lemma_bindings_front, lemma_members_front, members};
use crate::value::{
    Callable, Float, HashableValue, Host, LibraryContext, NativeFunc, NativeFuncArgs,
    NativeFuncReturn, NativeFuncView, ObjectStore, TSFunc, TSObject, Value, ValueView, text_of,
    values_view,
};

verus! {

/// A native library: its name, the names it offers, and its state.
pub struct Library {
    pub name: String,
    pub scope: Scope,
    pub context: Box<dyn LibraryContext>,
}

/// The state of an imported library: the base library has none of its own,
/// and that of any other library is kept for its functions to run with.
pub enum LibraryState {
    Base,
    Foreign(Box<dyn LibraryContext>),
}

/// The state of a running program.
pub struct Context {
    /// The call stack; its first scope is the global one, its last the
    /// innermost.
    pub stack: Vec<Scope>,
    /// The state of each imported library, by the library's name.
    pub libctx: Vec<(String, LibraryState)>,
    pub cancellable: Option<CancellationToken>,
    pub objects: ObjectStore,
    pub host: Box<dyn Host>,
    /// How many more nodes may be evaluated before the run is interrupted.
    pub budget: u64,
}

/// The views of a stack's scopes, outermost first.
pub open spec fn scopes_view(stack: Seq<Scope>) -> Seq<ScopeView> {
    Seq::new(stack.len(), |i: int| stack[i]@)
}

/// Whether `i` is the innermost scope that binds the name.
pub open spec fn binds_innermost(scopes: Seq<ScopeView>, name: Seq<char>, i: int) -> bool {
    &&& 0 <= i < scopes.len()
    &&& scopes[i].vars.dom().contains(name)
    &&& forall|j: int| i < j < scopes.len() ==> !(#[trigger] scopes[j]).vars.dom().contains(name)
}

/// Whether no scope binds the name.
pub open spec fn unbound(scopes: Seq<ScopeView>, name: Seq<char>) -> bool {
    forall|j: int| 0 <= j < scopes.len() ==> !(#[trigger] scopes[j]).vars.dom().contains(name)
}

/// The scope that an assignment to a plain name writes to: the innermost
/// scope that binds the name, and the innermost scope of all where none
/// does.
pub open spec fn assignment_target(scopes: Seq<ScopeView>, name: Seq<char>, i: int) -> bool {
    binds_innermost(scopes, name, i) || (unbound(scopes, name) && i == scopes.len() - 1)
}

/// A scope after a name was bound in it.
pub open spec fn rebound(scope: ScopeView, name: Seq<char>, value: ValueView) -> ScopeView {
    ScopeView { vars: scope.vars.insert(name, value), props: scope.props }
}

/// How a stack may change while an expression is evaluated: it keeps its
/// depth, no scope loses a name or changes its properties, and only the
/// innermost scope gains names.
pub open spec fn stack_evolves(before: Seq<ScopeView>, after: Seq<ScopeView>) -> bool {
    &&& after.len() == before.len()
    &&& forall|i: int|
        0 <= i < before.len() ==> (#[trigger] after[i]).props == before[i].props
            && before[i].vars.dom().subset_of(after[i].vars.dom())
    &&& forall|i: int|
        0 <= i < before.len() - 1 ==> (#[trigger] after[i]).vars.dom() == before[i].vars.dom()
}

/// Whether two stacks are as deep as each other and each scope binds the
/// same names and has the same computed properties in both.
pub open spec fn names_kept(before: Seq<ScopeView>, after: Seq<ScopeView>) -> bool {
    &&& after.len() == before.len()
    &&& forall|i: int|
        0 <= i < before.len() ==> (#[trigger] after[i]).props == before[i].props
            && after[i].vars.dom() == before[i].vars.dom()
}

/// The table of libraries after a library was stored in it: in the first
/// place that holds a library of its name, or else at the end.
pub open spec fn library_stored(
    table: Seq<(Seq<char>, bool)>,
    name: Seq<char>,
    base: bool,
) -> Seq<(Seq<char>, bool)> {
    if no_library(table, name) {
        table.push((name, base))
    } else {
        table.update(choose|i: int| holds_library(table, name, i), (name, base))
    }
}

/// Names imported without a prefix into an empty scope are the scope.
pub proof fn lemma_import_into_empty(library: Map<Seq<char>, ValueView>)
    ensures
        imported_vars(Map::empty(), library, Seq::empty()) == library,
        imported_props(Set::empty(), Set::empty(), Seq::empty()) == Set::<Seq<char>>::empty(),
{
    let none = Seq::<char>::empty();
    assert forall|k: Seq<char>| is_imported(library.dom(), none, k) == library.dom().contains(
        k,
    ) by {
        assert(k.skip(0) =~= k);
        assert(k.take(0) =~= none);
    }
    assert forall|k: Seq<char>| #[trigger] library.dom().contains(k) implies imported_vars(
        Map::empty(),
        library,
        none,
    )[k] == library[k] by {
        assert(k.skip(0) =~= k);
    }
    assert(imported_vars(Map::empty(), library, none) =~= library);
    assert(imported_props(Set::empty(), Set::empty(), none) =~= Set::<Seq<char>>::empty());
}

/// The first library that is stored is the whole table.
pub proof fn lemma_store_first(name: Seq<char>, base: bool)
    ensures
        library_stored(Seq::empty(), name, base) == seq![(name, base)],
{
    assert(no_library(Seq::<(Seq<char>, bool)>::empty(), name));
    assert(Seq::<(Seq<char>, bool)>::empty().push((name, base)) =~= seq![(name, base)]);
}

/// A table has one first place for a library at most.
pub proof fn lemma_one_first_library(table: Seq<(Seq<char>, bool)>, name: Seq<char>, at: int)
    requires
        holds_library(table, name, at),
    ensures
        !no_library(table, name),
        (choose|i: int| holds_library(table, name, i)) == at,
{
    assert(table[at].0 == name);
    let other = choose|i: int| holds_library(table, name, i);
    if other < at {
        assert(table[other].0 != name);
    }
    if at < other {
        assert(table[at].0 != name);
    }
}

/// A value with one `return` wrapper taken off, if it has one.
pub open spec fn unwrapped(v: ValueView) -> ValueView {
    match v {
        ValueView::EvaluatedReturn(inner) => *inner,
        other => other,
    }
}

/// Takes one `return` wrapper off a value, if it has one.
pub fn unwrap_return(v: Value) -> (r: Value)
    ensures
        r@ == unwrapped(v@),
{
    match v {
        Value::EvaluatedReturn(inner) => *inner,
        other => other,
    }
}

/// Whether a value ends the block it was evaluated in: the value of a
/// `return` or of a `break`.
pub open spec fn is_sentinel(v: ValueView) -> bool {
    v is EvaluatedReturn || v is Break
}

pub fn ends_block(v: &Value) -> (r: bool)
    ensures
        r == is_sentinel(v@),
{
    match v {
        Value::EvaluatedReturn(_) => true,
        Value::Break => true,
        _ => false,
    }
}

/// What a loop does after its body gave a value.
#[derive(Debug)]
pub enum LoopFlow {
    /// Go on with the next round.
    Continue,
    /// The body broke out: the loop ends and its value is nothing.
    Stop,
    /// The body returned: the loop ends and hands the return on.
    Return(Value),
}

pub enum LoopFlowView {
    Continue,
    Stop,
    Return(ValueView),
}

impl View for LoopFlow {
    type V = LoopFlowView;

    open spec fn view(&self) -> LoopFlowView {
        match self {
            LoopFlow::Continue => LoopFlowView::Continue,
            LoopFlow::Stop => LoopFlowView::Stop,
            LoopFlow::Return(v) => LoopFlowView::Return(v@),
        }
    }
}

/// What a loop does after its body gave `v`: a `break` ends the loop, a
/// `return` ends it and is handed on as it is, anything else is dropped.
pub open spec fn loop_flow_of(v: ValueView) -> LoopFlowView {
    match v {
        ValueView::Break => LoopFlowView::Stop,
        ValueView::EvaluatedReturn(_) => LoopFlowView::Return(v),
        _ => LoopFlowView::Continue,
    }
}

pub fn loop_flow(v: Value) -> (r: LoopFlow)
    ensures
        r@ == loop_flow_of(v@),
{
    match v {
        Value::Break => LoopFlow::Stop,
        Value::EvaluatedReturn(inner) => LoopFlow::Return(Value::EvaluatedReturn(inner)),
        _ => LoopFlow::Continue,
    }
}

/// Decides whether a node may be evaluated: not when the host has asked for
/// a stop, and not when the budget is used up. The error carries the node's
/// span.
pub fn check_interrupt(stop: bool, budget: u64, span: &Range<usize>) -> (r: Result<
    (),
    Spanned<Error>,
>)
    ensures
        r is Err <==> (stop || budget == 0),
        r matches Err(e) ==> e.item@ == ErrorView::Interrupted && e.span == *span,
{
    if stop || budget == 0 {
        Err(Spanned::new(Error::Interrupted, copy_span(span)))
    } else {
        Ok(())
    }
}

/// Checks that a function is called with as many arguments as it has
/// parameters.
pub fn check_arg_count(found: usize, expected: usize, span: &Range<usize>) -> (r: Result<
    (),
    Spanned<Error>,
>)
    ensures
        r is Ok <==> found == expected,
        r matches Err(e) ==> e.item@ == ErrorView::RuntimeError(
            RuntimeErrorView::InvalidArgCount(found, expected),
        ) && e.span == *span,
{
    if found != expected {
        Err(
            Spanned::new(
                Error::RuntimeError(RuntimeError::InvalidArgCount(found, expected)),
                copy_span(span),
            ),
        )
    } else {
        Ok(())
    }
}

/// The number of passes of a counted loop, from what its count gave: the
/// count must be an integer, and any other value is an error at the count.
pub fn loop_count(count: &Value, span: &Range<usize>) -> (r: Result<i32, Spanned<Error>>)
    ensures
        count@ matches ValueView::Int(n) ==> r matches Ok(k) && k == n,
        !(count@ is Int) ==> (r matches Err(e) && e.item@ == ErrorView::InvalidIterationCount
            && e.span == *span),
{
    match count {
        Value::Int(n) => Ok(*n),
        _ => Err(Spanned::new(Error::InvalidIterationCount, copy_span(span))),
    }
}

/// What a float literal gives, from what the host read in its text.
pub open spec fn float_literal_of(
    parsed: Option<Float>,
    text: Seq<char>,
    span: Range<usize>,
) -> Result<ValueView, (ErrorView, Range<usize>)> {
    match parsed {
        Some(x) => Ok(ValueView::Float(x)),
        None => Err((ErrorView::RuntimeError(RuntimeErrorView::TypeParseError(text)), span)),
    }
}

/// The value of a float literal, from what the host read in its text: the
/// float, or an error at the literal where the text denotes none.
pub fn float_literal(parsed: Option<Float>, text: &String, span: &Range<usize>) -> (r: Result<
    Value,
    Spanned<Error>,
>)
    ensures
        eval_view(r) == float_literal_of(parsed, text@, *span),
{
    match parsed {
        Some(x) => Ok(Value::Float(x)),
        None => Err(
            Spanned::new(
                Error::RuntimeError(RuntimeError::TypeParseError(text.clone())),
                copy_span(span),
            ),
        ),
    }
}

/// Whether an error says that a value cannot be called: the error shows
/// the value as text, which is the host's to give where a float is shown.
pub open spec fn cannot_be_called(error: ErrorView, value: ValueView) -> bool {
    error matches ErrorView::ThisCannotBeCalled(shown) && (text_of(value) matches Some(t) ==> shown
        == t)
}

/// The function that a call runs, from what the called expression gave. A
/// value that is no function cannot be called: the error stands at the
/// call and shows the value as text.
pub fn callee(value: Value, span: &Range<usize>, host: &Box<dyn Host>) -> (r: Result<
    Callable,
    Spanned<Error>,
>)
    ensures
        value@ matches ValueView::Callable(c) ==> r matches Ok(f) && f@ == c,
        !(value@ is Callable) ==> (r matches Err(e) && e.span == *span && cannot_be_called(
            e.item@,
            value@,
        )),
{
    match value {
        Value::Callable(callable) => Ok(callable),
        other => {
            let text = other.to_text(host);
            Err(Spanned::new(Error::ThisCannotBeCalled(text), copy_span(span)))
        },
    }
}

/// Whether `outcome` is the outcome, for a call at `span`, of asking the
/// library in `state` for the function `func` with the arguments `values`:
/// the library was asked for the function by its name, with the function's
/// object and with those arguments in their order, and `outcome` is what
/// [`native_outcome_of`] makes of its answer.
pub open spec fn asked(
    state: &Box<dyn LibraryContext>,
    func: NativeFuncView,
    values: Seq<ValueView>,
    span: Range<usize>,
    outcome: Result<ValueView, (ErrorView, Range<usize>)>,
) -> bool {
    exists|name: &str, args: NativeFuncArgs, answer: NativeFuncReturn|
        name@ == func.name && values_view(args@) == values && #[trigger] state.gives(
            name,
            func.this,
            args,
            answer,
        ) && outcome == native_outcome_of(crate::value::result_view(answer), span)
}

/// What a call of a native function gives, from what the function
/// answered: its error becomes a runtime error at the call's span, and a
/// `return` wrapper around its value is taken off.
pub open spec fn native_outcome_of(
    answer: Result<ValueView, RuntimeErrorView>,
    span: Range<usize>,
) -> Result<ValueView, (ErrorView, Range<usize>)> {
    match answer {
        Ok(v) => Ok(unwrapped(v)),
        Err(e) => Err((ErrorView::RuntimeError(e), span)),
    }
}

pub fn native_outcome(answer: NativeFuncReturn, span: Range<usize>) -> (r: Result<
    Value,
    Spanned<Error>,
>)
    ensures
        eval_view(r) == native_outcome_of(crate::value::result_view(answer), span),
{
    match answer {
        Ok(v) => Ok(unwrap_return(v)),
        Err(e) => Err(Spanned::new(Error::RuntimeError(e), span)),
    }
}

/// What reading a name gives, from what the name is bound to: the value
/// itself, or, for a computed property, the function to run; a property
/// that holds no function is a type error.
#[derive(Debug)]
pub enum Reading {
    Value(Value),
    Invoke(Callable),
}

pub enum ReadingView {
    Value(ValueView),
    Invoke(crate::value::CallableView),
}

impl View for Reading {
    type V = ReadingView;

    open spec fn view(&self) -> ReadingView {
        match self {
            Reading::Value(v) => ReadingView::Value(v@),
            Reading::Invoke(c) => ReadingView::Invoke(c@),
        }
    }
}

pub open spec fn property_message() -> Seq<char> {
    "Property field is not a callable"@
}

pub open spec fn not_object_message() -> Seq<char> {
    "This is not an object"@
}

pub open spec fn reading_of(stored: ValueView, is_prop: bool) -> Result<ReadingView, ErrorView> {
    if is_prop {
        match stored {
            ValueView::Callable(c) => Ok(ReadingView::Invoke(c)),
            _ => Err(ErrorView::TypeError(property_message())),
        }
    } else {
        Ok(ReadingView::Value(stored))
    }
}

pub open spec fn reading_result_view(r: Result<Reading, Error>) -> Result<ReadingView, ErrorView> {
    match r {
        Ok(x) => Ok(x@),
        Err(e) => Err(e@),
    }
}

pub fn read_binding(stored: &Value, is_prop: bool) -> (r: Result<Reading, Error>)
    ensures
        reading_result_view(r) == reading_of(stored@, is_prop),
{
    if is_prop {
        match stored {
            Value::Callable(c) => Ok(Reading::Invoke(c.clone())),
            _ => Err(Error::TypeError(String::from_str("Property field is not a callable"))),
        }
    } else {
        Ok(Reading::Value(stored.clone()))
    }
}

fn undefined(name: &String) -> (r: Error)
    ensures
        r@ == ErrorView::RuntimeError(RuntimeErrorView::InvalidIdentifier(name@)),
{
    Error::RuntimeError(RuntimeError::InvalidIdentifier(name.clone()))
}

fn not_an_object() -> (r: Error)
    ensures
        r@ == ErrorView::TypeError(not_object_message()),
{
    Error::TypeError(String::from_str("This is not an object"))
}

/// What is put before the names of a library when they are imported: the
/// library's name and a dot, if a prefix is asked for.
pub open spec fn library_prefix(name: Seq<char>, prefix_name: bool) -> Seq<char> {
    if prefix_name {
        name + "."@
    } else {
        Seq::empty()
    }
}

/// Whether `key` is the prefix followed by a name of the set.
pub open spec fn is_imported(names: Set<Seq<char>>, prefix: Seq<char>, key: Seq<char>) -> bool {
    &&& key.len() >= prefix.len()
    &&& key.take(prefix.len() as int) == prefix
    &&& names.contains(key.skip(prefix.len() as int))
}

/// The variables of the global scope after a library was imported: each
/// name of the library, with the prefix before it, is bound to the
/// library's value, and every other name stays as it was.
pub open spec fn imported_vars(
    root: Map<Seq<char>, ValueView>,
    library: Map<Seq<char>, ValueView>,
    prefix: Seq<char>,
) -> Map<Seq<char>, ValueView> {
    Map::new(
        |k: Seq<char>| root.dom().contains(k) || is_imported(library.dom(), prefix, k),
        |k: Seq<char>|
            if is_imported(library.dom(), prefix, k) {
                library[k.skip(prefix.len() as int)]
            } else {
                root[k]
            },
    )
}

/// The computed properties of the global scope after a library was
/// imported: the library's, with the prefix before each, beside those that
/// were there.
pub open spec fn imported_props(
    root: Set<Seq<char>>,
    library: Set<Seq<char>>,
    prefix: Seq<char>,
) -> Set<Seq<char>> {
    Set::new(|k: Seq<char>| root.contains(k) || is_imported(library, prefix, k))
}

proof fn lemma_imported_key(names: Set<Seq<char>>, prefix: Seq<char>, name: Seq<char>)
    ensures
        forall|k: Seq<char>|
            is_imported(names.insert(name), prefix, k) <==> (is_imported(names, prefix, k) || k
                == prefix + name),
        (prefix + name).skip(prefix.len() as int) == name,
{
    assert((prefix + name).skip(prefix.len() as int) =~= name);
    assert((prefix + name).take(prefix.len() as int) =~= prefix);
    assert forall|k: Seq<char>|
        is_imported(names.insert(name), prefix, k) <==> (is_imported(names, prefix, k) || k
            == prefix + name) by {
        if k.len() >= prefix.len() && k.take(prefix.len() as int) == prefix && k.skip(
            prefix.len() as int,
        ) == name {
            assert(k =~= k.take(prefix.len() as int) + k.skip(prefix.len() as int));
        }
    }
}

proof fn lemma_imported_vars_insert(
    root: Map<Seq<char>, ValueView>,
    library: Map<Seq<char>, ValueView>,
    prefix: Seq<char>,
    name: Seq<char>,
    value: ValueView,
)
    ensures
        imported_vars(root, library.insert(name, value), prefix) == imported_vars(
            root,
            library,
            prefix,
        ).insert(prefix + name, value),
{
    lemma_imported_key(library.dom(), prefix, name);
    let a = imported_vars(root, library.insert(name, value), prefix);
    let b = imported_vars(root, library, prefix).insert(prefix + name, value);
    assert(library.insert(name, value).dom() =~= library.dom().insert(name));
    assert forall|k: Seq<char>| a.dom().contains(k) == b.dom().contains(k) by {
        assert(is_imported(library.dom().insert(name), prefix, k) <==> (is_imported(
            library.dom(),
            prefix,
            k,
        ) || k == prefix + name));
    }
    assert forall|k: Seq<char>| #[trigger] a.dom().contains(k) implies a[k] == b[k] by {
        assert(is_imported(library.dom().insert(name), prefix, k) <==> (is_imported(
            library.dom(),
            prefix,
            k,
        ) || k == prefix + name));
        if k != prefix + name && is_imported(library.dom(), prefix, k) {
            assert(k.skip(prefix.len() as int) != name) by {
                assert(k =~= k.take(prefix.len() as int) + k.skip(prefix.len() as int));
            }
        }
    }
    assert(a =~= b);
}

proof fn lemma_imported_props_insert(
    root: Set<Seq<char>>,
    library: Set<Seq<char>>,
    prefix: Seq<char>,
    name: Seq<char>,
)
    ensures
        imported_props(root, library.insert(name), prefix) == imported_props(
            root,
            library,
            prefix,
        ).insert(prefix + name),
{
    lemma_imported_key(library, prefix, name);
    let a = imported_props(root, library.insert(name), prefix);
    let b = imported_props(root, library, prefix).insert(prefix + name);
    assert forall|k: Seq<char>| a.contains(k) == b.contains(k) by {
        assert(is_imported(library.insert(name), prefix, k) <==> (is_imported(library, prefix, k)
            || k == prefix + name));
    }
    assert(a =~= b);
}

impl Context {
    /// A context for a new program: one global scope, with the base library
    /// imported, and the largest budget there is.
    pub fn new_parent(cancellable: Option<CancellationToken>, host: Box<dyn Host>) -> (r: Self)
        ensures
            r.wf(),
            r.scopes().len() == 1,
            r.scopes()[0].vars == stdlib::std_vars(),
            r.scopes()[0].props == Set::<Seq<char>>::empty(),
            r.library_table() == seq![(stdlib::std_name(), true)],
            r.cancellable == cancellable,
            equal(r.host, host),
            r.objects@.len() == 0,
            r.budget == u64::MAX,
    {
        let mut stack: Vec<Scope> = Vec::new();
        stack.push(Scope::new());
        let mut this = Self {
            stack: stack,
            libctx: Vec::new(),
            cancellable: cancellable,
            objects: ObjectStore::new(),
            host: host,
            budget: u64::MAX,
        };
        assert(this.library_table() =~= Seq::<(Seq<char>, bool)>::empty());
        let Library { name, scope, context } = stdlib::init_library();
        this.import_names(&name, scope, false);
        this.store_library(name, LibraryState::Base);
        proof {
            lemma_import_into_empty(stdlib::std_vars());
            lemma_store_first(stdlib::std_name(), true);
            assert(this.library_table() =~= seq![(stdlib::std_name(), true)]);
        }
        this
    }

    /// Imports a native library: its names are bound in the global scope,
    /// each with the library's name and a dot before it if `prefix_name` is
    /// set, and its state is kept under its name for its functions to run
    /// with. A library imported again under the same name takes the place
    /// of the earlier one.
    pub fn import_library(&mut self, lib: Library, prefix_name: bool)
        requires
            old(self).wf(),
        ensures
            final(self).wf(),
            final(self).scopes().len() == old(self).scopes().len(),
            forall|i: int|
                1 <= i < old(self).scopes().len() ==> final(self).scopes()[i] == old(
                    self,
                ).scopes()[i],
            final(self).scopes()[0].vars == imported_vars(
                old(self).scopes()[0].vars,
                lib.scope@.vars,
                library_prefix(lib.name@, prefix_name),
            ),
            final(self).scopes()[0].props == imported_props(
                old(self).scopes()[0].props,
                lib.scope@.props,
                library_prefix(lib.name@, prefix_name),
            ),
            final(self).library_table() == library_stored(
                old(self).library_table(),
                lib.name@,
                false,
            ),
            final(self).keeps_state(lib.name@, LibraryState::Foreign(lib.context)),
            final(self).budget == old(self).budget,
            final(self).objects == old(self).objects,
            final(self).cancellable == old(self).cancellable,
            final(self).host == old(self).host,
    {
        let Library { name, scope, context } = lib;
        self.import_names(&name, scope, prefix_name);
        self.store_library(name, LibraryState::Foreign(context));
    }

    /// Binds the names of a library in the global scope.
    fn import_names(&mut self, name: &String, scope: Scope, prefix_name: bool)
        requires
            old(self).wf(),
        ensures
            final(self).wf(),
            final(self).scopes().len() == old(self).scopes().len(),
            forall|i: int|
                1 <= i < old(self).scopes().len() ==> final(self).scopes()[i] == old(
                    self,
                ).scopes()[i],
            final(self).scopes()[0].vars == imported_vars(
                old(self).scopes()[0].vars,
                scope@.vars,
                library_prefix(name@, prefix_name),
            ),
            final(self).scopes()[0].props == imported_props(
                old(self).scopes()[0].props,
                scope@.props,
                library_prefix(name@, prefix_name),
            ),
            final(self).library_table() == old(self).library_table(),
            final(self).budget == old(self).budget,
            final(self).objects == old(self).objects,
            final(self).cancellable == old(self).cancellable,
            final(self).host == old(self).host,
    {
        let Scope { vars, vars_props } = scope;
        let mut vars = vars;
        let mut vars_props = vars_props;
        let prefix = if prefix_name {
            name.clone().concat(".")
        } else {
            String::new()
        };
        let ghost p = library_prefix(name@, prefix_name);
        let ghost root_vars = self.scopes()[0].vars;
        let ghost root_props = self.scopes()[0].props;
        let ghost all_vars = vars@;
        let ghost all_props = vars_props@;
        proof {
            assert(prefix@ =~= p);
            assert(all_vars.subrange(all_vars.len() as int, all_vars.len() as int) =~= Seq::<
                (String, Value),
            >::empty());
            assert(bindings::<String, Value>(Seq::<(String, Value)>::empty()).dom()
                =~= Set::<Seq<char>>::empty());
            assert(imported_vars(
                root_vars,
                bindings::<String, Value>(Seq::<(String, Value)>::empty()),
                p,
            ) =~= root_vars);
        }
        while vars.len() > 0
            invariant
                self.wf(),
                prefix@ == p,
                self.scopes().len() == old(self).scopes().len(),
                forall|i: int|
                    1 <= i < old(self).scopes().len() ==> self.scopes()[i] == old(self).scopes()[i],
                vars@ == all_vars.subrange(0, vars.len() as int),
                vars.len() <= all_vars.len(),
                self.scopes()[0].vars == imported_vars(
                    root_vars,
                    bindings::<String, Value>(
                        all_vars.subrange(vars.len() as int, all_vars.len() as int),
                    ),
                    p,
                ),
                self.scopes()[0].props == root_props,
                self.budget == old(self).budget,
                self.objects == old(self).objects,
                self.cancellable == old(self).cancellable,
                self.library_table() == old(self).library_table(),
                self.host == old(self).host,
            decreases vars.len(),
        {
            let ghost before = self.scopes();
            let ghost n = vars.len() as int;
            let entry = vars.pop().unwrap();
            let key = entry.0;
            let value = entry.1;
            let full = prefix.clone().concat(key.as_str());
            proof {
                let done = all_vars.subrange(n, all_vars.len() as int);
                let more = all_vars.subrange(n - 1, all_vars.len() as int);
                assert(more.drop_first() =~= done);
                assert(more[0] == all_vars[n - 1]);
                assert(all_vars[n - 1] == (key, value));
                lemma_bindings_front::<String, Value>(more);
                lemma_imported_vars_insert(
                    root_vars,
                    bindings::<String, Value>(done),
                    p,
                    key@,
                    value@,
                );
                assert(vars@ =~= all_vars.subrange(0, n - 1));
            }
            self.stack[0].insert(full, value);
            proof {
                assert forall|i: int| 1 <= i < before.len() implies self.scopes()[i]
                    == before[i] by {}
            }
        }
        proof {
            assert(all_vars.subrange(0, all_vars.len() as int) =~= all_vars);
            assert(all_props.subrange(all_props.len() as int, all_props.len() as int) =~= Seq::<
                String,
            >::empty());
            assert(members::<String>(Seq::<String>::empty()) =~= Set::<Seq<char>>::empty());
            assert(imported_props(root_props, Set::<Seq<char>>::empty(), p) =~= root_props);
        }
        let ghost new_vars = self.scopes()[0].vars;
        while vars_props.len() > 0
            invariant
                self.wf(),
                prefix@ == p,
                self.scopes().len() == old(self).scopes().len(),
                forall|i: int|
                    1 <= i < old(self).scopes().len() ==> self.scopes()[i] == old(self).scopes()[i],
                vars_props@ == all_props.subrange(0, vars_props.len() as int),
                vars_props.len() <= all_props.len(),
                self.scopes()[0].vars == new_vars,
                self.scopes()[0].props == imported_props(
                    root_props,
                    members::<String>(
                        all_props.subrange(vars_props.len() as int, all_props.len() as int),
                    ),
                    p,
                ),
                self.budget == old(self).budget,
                self.objects == old(self).objects,
                self.cancellable == old(self).cancellable,
                self.library_table() == old(self).library_table(),
                self.host == old(self).host,
            decreases vars_props.len(),
        {
            let ghost before = self.scopes();
            let ghost n = vars_props.len() as int;
            let prop = vars_props.pop().unwrap();
            let full = prefix.clone().concat(prop.as_str());
            proof {
                let done = all_props.subrange(n, all_props.len() as int);
                let more = all_props.subrange(n - 1, all_props.len() as int);
                assert(more.drop_first() =~= done);
                assert(more[0] == all_props[n - 1]);
                lemma_members_front::<String>(more);
                lemma_imported_props_insert(root_props, members::<String>(done), p, prop@);
                assert(vars_props@ =~= all_props.subrange(0, n - 1));
            }
            self.stack[0].set_prop(full);
            proof {
                assert forall|i: int| 1 <= i < before.len() implies self.scopes()[i]
                    == before[i] by {}
            }
        }
        proof {
            assert(all_props.subrange(0, all_props.len() as int) =~= all_props);
        }
    }

    /// Keeps the state of a library under its name, in the place of a
    /// library of the same name if there is one.
    fn store_library(&mut self, name: String, state: LibraryState)
        ensures
            final(self).library_table() == library_stored(
                old(self).library_table(),
                name@,
                state is Base,
            ),
            final(self).stack == old(self).stack,
            final(self).budget == old(self).budget,
            final(self).objects == old(self).objects,
            final(self).cancellable == old(self).cancellable,
            final(self).host == old(self).host,
            final(self).keeps_state(name@, state),
    {
        let ghost table = self.library_table();
        let ghost name_view = name@;
        let ghost base = state is Base;
        match self.find_library(&name) {
            Some(at) => {
                let ghost held = self.libctx@;
                let entry = (name, state);
                let ghost entry_view = entry;
                self.libctx.set(at, entry);
                proof {
                    assert(self.libctx@ == held.update(at as int, entry_view));
                    assert(holds_library(table, name_view, at as int));
                    lemma_one_first_library(table, name_view, at as int);
                    assert forall|j: int| 0 <= j < table.len() implies self.library_table()[j]
                        == table.update(at as int, (name_view, base))[j] by {
                        if j != at {
                            assert(self.libctx@[j] == held[j]);
                        }
                    }
                    assert(self.library_table() =~= table.update(at as int, (name_view, base)));
                    assert(self.libctx[at as int] == entry_view);
                    assert(holds_library(self.library_table(), name_view, at as int));
                }
            },
            None => {
                let ghost held = self.libctx@;
                let entry = (name, state);
                let ghost entry_view = entry;
                self.libctx.push(entry);
                proof {
                    assert(self.libctx@ == held.push(entry_view));
                    assert forall|j: int| 0 <= j < table.len() implies self.library_table()[j]
                        == table[j] by {
                        assert(self.libctx@[j] == held[j]);
                    }
                    assert(self.library_table() =~= table.push((name_view, base)));
                    assert(self.libctx[held.len() as int] == entry_view);
                    assert(holds_library(self.library_table(), name_view, held.len() as int));
                }
            },
        }
    }

    /// The views of the scopes of the stack, outermost first.
    pub open spec fn scopes(&self) -> Seq<ScopeView> {
        scopes_view(self.stack@)
    }

    /// The state of the run, as the program sees it.
    pub open spec fn machine(&self) -> Machine {
        Machine {
            scopes: self.scopes(),
            objects: self.objects@,
            budget: self.budget as nat,
            libraries: self.library_table(),
        }
    }

    /// Whether `state` is the state that the functions of the library
    /// `name` run with: the one kept in the first place of that name.
    pub open spec fn keeps_state(&self, name: Seq<char>, state: LibraryState) -> bool {
        exists|i: int|
            holds_library(self.library_table(), name, i) && (#[trigger] self.libctx[i]).1 == state
    }

    /// The libraries that were imported, in order of import: the name of
    /// each, and whether it is the base library.
    pub open spec fn library_table(&self) -> Seq<(Seq<char>, bool)> {
        Seq::new(self.libctx.len() as nat, |i: int| (self.libctx[i].0@, self.libctx[i].1 is Base))
    }

    /// A context can run programs when its stack holds the global scope.
    pub open spec fn wf(&self) -> bool {
        self.stack.len() >= 1
    }

    /// The innermost scope that binds the name, if any does.
    pub fn find_scope(&self, name: &String) -> (r: Option<usize>)
        ensures
            match r {
                Some(i) => binds_innermost(self.scopes(), name@, i as int),
                None => unbound(self.scopes(), name@),
            },
    {
        let mut i: usize = self.stack.len();
        while i > 0
            invariant
                i <= self.stack.len(),
                forall|j: int|
                    i <= j < self.stack.len() ==> !(#[trigger] self.scopes()[j]).vars.dom().contains(
                        name@,
                    ),
            decreases i,
        {
            i -= 1;
            if self.stack[i].get(name).is_some() {
                return Some(i);
            }
        }
        None
    }

    /// Reads a plain name: the binding of the innermost scope that has one.
    pub fn lookup(&self, name: &String) -> (r: Result<Reading, Error>)
        ensures
            unbound(self.scopes(), name@) ==> reading_result_view(r) == Err::<ReadingView, ErrorView>(
                ErrorView::RuntimeError(RuntimeErrorView::InvalidIdentifier(name@)),
            ),
            forall|i: int|
                binds_innermost(self.scopes(), name@, i) ==> reading_result_view(r) == reading_of(
                    (#[trigger] self.scopes()[i]).vars[name@],
                    self.scopes()[i].props.contains(name@),
                ),
    {
        match self.find_scope(name) {
            Some(i) => {
                let scope = &self.stack[i];
                let is_prop = scope.is_prop(name);
                match scope.get(name) {
                    Some(stored) => {
                        let r = read_binding(stored, is_prop);
                        proof {
                            assert forall|k: int|
                                binds_innermost(
                                    self.scopes(),
                                    name@,
                                    k,
                                ) implies reading_result_view(r) == reading_of(
                                (#[trigger] self.scopes()[k]).vars[name@],
                                self.scopes()[k].props.contains(name@),
                            ) by {
                                assert(self.scopes()[i as int].vars.dom().contains(name@));
                                assert(k == i);
                            }
                        }
                        r
                    },
                    None => Err(undefined(name)),
                }
            },
            None => {
                proof {
                    assert forall|k: int| binds_innermost(self.scopes(), name@, k) implies false by {
                        assert(!self.scopes()[k].vars.dom().contains(name@));
                    }
                }
                Err(undefined(name))
            },
        }
    }

    /// Assigns to a plain name. The innermost scope that binds the name is
    /// rebound; a name that no scope binds is bound in the innermost scope.
    /// Gives back the value that the name had there, or nothing.
    pub fn assign(&mut self, name: String, value: Value) -> (r: Value)
        requires
            old(self).wf(),
        ensures
            final(self).wf(),
            forall|i: int|
                assignment_target(old(self).scopes(), name@, i) ==> final(self).scopes() == old(
                    self,
                ).scopes().update(i, rebound(#[trigger] old(self).scopes()[i], name@, value@))
                    && r@ == match binding(old(self).scopes()[i].vars, name@) {
                    Some(v) => v,
                    None => ValueView::Nil,
                },
            exists|i: int| assignment_target(old(self).scopes(), name@, i),
            stack_evolves(old(self).scopes(), final(self).scopes()),
            final(self).budget == old(self).budget,
            final(self).objects == old(self).objects,
            final(self).library_table() == old(self).library_table(),
            final(self).cancellable == old(self).cancellable,
    {
        let target = match self.find_scope(&name) {
            Some(i) => i,
            None => self.stack.len() - 1,
        };
        proof {
            assert(assignment_target(old(self).scopes(), name@, target as int));
            assert forall|k: int| assignment_target(old(self).scopes(), name@, k) implies k
                == target by {
                if binds_innermost(old(self).scopes(), name@, k) {
                    if unbound(old(self).scopes(), name@) {
                        assert(!old(self).scopes()[k].vars.dom().contains(name@));
                    } else {
                        if k < target {
                            assert(!old(self).scopes()[target as int].vars.dom().contains(name@));
                        }
                        if target < k {
                            assert(!old(self).scopes()[k].vars.dom().contains(name@));
                        }
                    }
                } else {
                    if !unbound(old(self).scopes(), name@) {
                        assert(false);
                    }
                    if binds_innermost(old(self).scopes(), name@, target as int) {
                        assert(!old(self).scopes()[target as int].vars.dom().contains(name@));
                    }
                }
            }
        }
        let ghost name_view = name@;
        let ghost value_view = value@;
        let before = self.stack[target].insert(name, value);
        proof {
            assert(self.scopes() =~= old(self).scopes().update(
                target as int,
                rebound(old(self).scopes()[target as int], name_view, value_view),
            ));
            let b = old(self).scopes();
            let a = self.scopes();
            assert forall|i: int| 0 <= i < b.len() implies (#[trigger] a[i]).props == b[i].props
                && b[i].vars.dom().subset_of(a[i].vars.dom()) by {}
            assert forall|i: int| 0 <= i < b.len() - 1 implies (#[trigger] a[i]).vars.dom()
                == b[i].vars.dom() by {
                if i == target {
                    assert(b[i].vars.dom().contains(name_view));
                    assert(a[i].vars.dom() =~= b[i].vars.dom());
                }
            }
        }
        match before {
            Some(v) => v,
            None => Value::Nil,
        }
    }

    /// Runs a program and gives its value. A `return` at the top of the
    /// program ends it, and its value is the program's.
    ///
    /// Where the host takes no part in the run, the value and the state
    /// after the run are those of [`run_root`], unless the run is
    /// interrupted through the cancellation flag.
    pub fn eval_root(&mut self, expression: &Spanned<Expression>) -> (r: Result<
        Value,
        Spanned<Error>,
    >)
        requires
            old(self).wf(),
        ensures
            final(self).wf(),
            stack_evolves(old(self).scopes(), final(self).scopes()),
            final(self).budget <= old(self).budget,
            final(self).cancellable == old(self).cancellable,
            final(self).library_table() == old(self).library_table(),
            run_root(expression@, old(self).machine()) matches Some((out, m)) ==> {
                ||| eval_view(r) == out && final(self).machine() == m
                ||| old(self).cancellable is Some && interrupted(r)
            },
            r is Ok ==> final(self).budget < old(self).budget,
            old(self).budget == 0 ==> eval_view(r) == Err::<ValueView, (ErrorView, Range<usize>)>(
                (ErrorView::Interrupted, expression.span),
            ),
            r matches Ok(v) ==> root_shape(expression@.item, v@),
    {
        match self.eval(expression) {
            Ok(v) => Ok(unwrap_return(v)),
            Err(e) => Err(e),
        }
    }

    /// Evaluates one node. The cancellation flag is read first, and the
    /// node is evaluated as [`Context::eval_node`] says.
    ///
    /// Where the host takes no part in the run, the value and the state
    /// after it are those of [`run`], unless the run is interrupted through
    /// the cancellation flag.
    pub fn eval(&mut self, expression: &Spanned<Expression>) -> (r: Result<Value, Spanned<Error>>)
        requires
            old(self).wf(),
        ensures
            final(self).wf(),
            stack_evolves(old(self).scopes(), final(self).scopes()),
            final(self).budget <= old(self).budget,
            final(self).cancellable == old(self).cancellable,
            final(self).library_table() == old(self).library_table(),
            run(expression@, old(self).machine()) matches Some((out, m)) ==> {
                ||| eval_view(r) == out && final(self).machine() == m
                ||| old(self).cancellable is Some && interrupted(r)
            },
            r is Ok ==> final(self).budget < old(self).budget,
            old(self).budget == 0 ==> eval_view(r) == Err::<ValueView, (ErrorView, Range<usize>)>(
                (ErrorView::Interrupted, expression.span),
            ),
            r matches Ok(v) ==> value_shape(expression@.item, v@),
        decreases old(self).budget, 1int,
    {
        let stop = stop_requested(&self.cancellable);
        self.eval_node(stop, expression)
    }

    /// Evaluates one node, after the cancellation flag was read: `stop`
    /// says whether it was found set. If it was, the node is not evaluated:
    /// the run is interrupted at the node and nothing has changed. The
    /// flag is read anew for every node within this one.
    #[verifier::rlimit(100)]
    pub fn eval_node(&mut self, stop: bool, expression: &Spanned<Expression>) -> (r: Result<
        Value,
        Spanned<Error>,
    >)
        requires
            old(self).wf(),
        ensures
            final(self).wf(),
            stack_evolves(old(self).scopes(), final(self).scopes()),
            final(self).budget <= old(self).budget,
            final(self).cancellable == old(self).cancellable,
            final(self).library_table() == old(self).library_table(),
            stop ==> eval_view(r) == Err::<ValueView, (ErrorView, Range<usize>)>(
                (ErrorView::Interrupted, expression.span),
            ) && final(self).machine() == old(self).machine(),
            run(expression@, old(self).machine()) matches Some((out, m)) ==> {
                ||| eval_view(r) == out && final(self).machine() == m
                ||| (stop || old(self).cancellable is Some) && interrupted(r)
            },
            r is Ok ==> final(self).budget < old(self).budget,
            old(self).budget == 0 ==> eval_view(r) == Err::<ValueView, (ErrorView, Range<usize>)>(
                (ErrorView::Interrupted, expression.span),
            ),
            r matches Ok(v) ==> value_shape(expression@.item, v@),
        decreases old(self).budget, 0int,
    {
        check_interrupt(stop, self.budget, &expression.span)?;
        self.budget = self.budget - 1;
        match &expression.item {
            Expression::Block(block) => self.eval_block(block),
            Expression::Call { expr, args } => {
                let called = self.eval(expr)?;
                let callable = callee(called, &expression.span, &self.host)?;
                self.call_callable(&callable, copy_span(&expression.span), args)
            },
            Expression::If { cond, body } => {
                let cond_res = self.eval(cond)?;
                if is_true(&cond_res) {
                    self.eval(body)
                } else {
                    Ok(Value::Nil)
                }
            },
            Expression::LoopInfinite { body } => self.eval_loop_infinite(body),
            Expression::LoopFinite { iters, body } => self.eval_loop_finite(iters, body),
            Expression::For { var, start, end, step, body } => self.eval_for(
                var,
                start,
                end,
                step,
                body,
            ),
            Expression::While { cond, body } => self.eval_while(cond, body),
            Expression::FnDef { name, args, body } => {
                let func = TSFunc { body: (**body).clone(), args: clone_names(args) };
                let top = self.stack.len() - 1;
                let defined = Value::Callable(Callable::Function(Box::new(func)));
                let ghost defined_view = defined@;
                let ghost before = self.scopes();
                self.stack[top].insert(name.clone(), defined);
                proof {
                    lemma_top_insert(before, self.scopes(), name@, defined_view);
                    assert(self.scopes() =~= before.update(
                        before.len() - 1,
                        rebound(before.last(), name@, defined_view),
                    ));
                }
                Ok(Value::Nil)
            },
            Expression::Assignment { expr, value } => self.eval_assignment(expr, value),
            Expression::Return { value } => {
                let val = self.eval(value)?;
                Ok(Value::EvaluatedReturn(Box::new(val)))
            },
            Expression::Break => Ok(Value::Break),
            Expression::Negation(a) => {
                let val = self.eval(a)?;
                negate(&val, copy_span(&expression.span))
            },
            Expression::Addition(a, b) => self.math_operator(a, b, MathOperator::Addition),
            Expression::Subtraction(a, b) => self.math_operator(a, b, MathOperator::Subtraction),
            Expression::Multiply(a, b) => self.math_operator(a, b, MathOperator::Multiply),
            Expression::Division(a, b) => self.math_operator(a, b, MathOperator::Division),
            Expression::Eq(a, b) => self.math_operator(a, b, MathOperator::Eq),
            Expression::Neq(a, b) => self.math_operator(a, b, MathOperator::Neq),
            Expression::Lt(a, b) => self.math_operator(a, b, MathOperator::Lt),
            Expression::Gt(a, b) => self.math_operator(a, b, MathOperator::Gt),
            Expression::Lte(a, b) => self.math_operator(a, b, MathOperator::Lte),
            Expression::Gte(a, b) => self.math_operator(a, b, MathOperator::Gte),
            Expression::Int(val) => Ok(Value::Int(*val)),
            Expression::Float(text) => {
                let parsed = self.host.float_parse(text.as_str());
                float_literal(parsed, text, &expression.span)
            },
            Expression::String(val) => Ok(Value::String(val.clone())),
            Expression::Image(val) => Ok(Value::Image(val.clone())),
            Expression::Key(val) => Ok(Value::Key(val.clone())),
            Expression::Variable { parent, name } => {
                let object = match parent {
                    Some(parent) => Some(self.eval(parent)?),
                    None => None,
                };
                match self.get_var(name, object) {
                    Ok(v) => Ok(v),
                    Err(err) => Err(Spanned::new(err, copy_span(&expression.span))),
                }
            },
            Expression::ObjDef { object } => self.eval_objdef(object),
            Expression::Nil => Ok(Value::Nil),
        }
    }

    fn eval_block(&mut self, block: &Vec<Spanned<Expression>>) -> (r: Result<
        Value,
        Spanned<Error>,
    >)
        requires
            old(self).wf(),
        ensures
            final(self).wf(),
            stack_evolves(old(self).scopes(), final(self).scopes()),
            final(self).budget <= old(self).budget,
            final(self).cancellable == old(self).cancellable,
            final(self).library_table() == old(self).library_table(),
            run_block(
                expr_list_view(block),
                0,
                ValueView::Nil,
                old(self).machine(),
            ) matches Some((out, m)) ==> {
                ||| eval_view(r) == out && final(self).machine() == m
                ||| old(self).cancellable is Some && interrupted(r)
            },
        decreases old(self).budget, 6int,
    {
        let ghost items = expr_list_view(block);
        let ghost whole = run_block(items, 0, ValueView::Nil, self.machine());
        let mut last_result = Value::Nil;
        let mut i: usize = 0;
        while i < block.len()
            invariant
                i <= block.len(),
                self.wf(),
                stack_evolves(old(self).scopes(), self.scopes()),
                self.budget <= old(self).budget,
                self.cancellable == old(self).cancellable,
                self.library_table() == old(self).library_table(),
                items == expr_list_view(block),
                whole == run_block(items, 0, ValueView::Nil, old(self).machine()),
                whole is Some ==> whole == run_block(
                    items,
                    i as int,
                    last_result@,
                    self.machine(),
                ),
            decreases block.len() - i,
        {
            proof {
                assert(items[i as int] == block[i as int]@);
            }
            let value = self.eval(&block[i])?;
            if ends_block(&value) {
                return Ok(value);
            }
            last_result = value;
            i += 1;
        }
        Ok(last_result)
    }

    fn eval_loop_infinite(&mut self, body: &Spanned<Expression>) -> (r: Result<
        Value,
        Spanned<Error>,
    >)
        requires
            old(self).wf(),
        ensures
            final(self).wf(),
            stack_evolves(old(self).scopes(), final(self).scopes()),
            final(self).budget <= old(self).budget,
            final(self).cancellable == old(self).cancellable,
            final(self).library_table() == old(self).library_table(),
            run_loop(body@, old(self).machine()) matches Some((out, m)) ==> {
                ||| eval_view(r) == out && final(self).machine() == m
                ||| old(self).cancellable is Some && interrupted(r)
            },
            r matches Ok(v) ==> v@ is Nil || v@ is EvaluatedReturn,
        decreases old(self).budget, 6int,
    {
        let ghost whole = run_loop(body@, self.machine());
        loop
            invariant
                self.wf(),
                stack_evolves(old(self).scopes(), self.scopes()),
                self.budget <= old(self).budget,
                self.cancellable == old(self).cancellable,
                self.library_table() == old(self).library_table(),
                whole == run_loop(body@, old(self).machine()),
                whole is Some ==> whole == run_loop(
                    body@,
                    self.machine(),
                ),
            decreases self.budget,
        {
            let value = self.eval(body)?;
            match loop_flow(value) {
                LoopFlow::Stop => {
                    return Ok(Value::Nil);
                },
                LoopFlow::Return(v) => {
                    return Ok(v);
                },
                LoopFlow::Continue => {},
            }
        }
    }

    fn eval_loop_finite(
        &mut self,
        iters: &Spanned<Expression>,
        body: &Spanned<Expression>,
    ) -> (r: Result<Value, Spanned<Error>>)
        requires
            old(self).wf(),
        ensures
            final(self).wf(),
            stack_evolves(old(self).scopes(), final(self).scopes()),
            final(self).budget <= old(self).budget,
            final(self).cancellable == old(self).cancellable,
            final(self).library_table() == old(self).library_table(),
            run_counted(iters@, body@, old(self).machine()) matches Some((out, m)) ==> {
                ||| eval_view(r) == out && final(self).machine() == m
                ||| old(self).cancellable is Some && interrupted(r)
            },
            r matches Ok(v) ==> v@ is Nil || v@ is EvaluatedReturn,
        decreases old(self).budget, 6int,
    {
        let ghost whole = run_counted(iters@, body@, self.machine());
        let count = self.eval(iters)?;
        match loop_count(&count, &iters.span) {
            Ok(n) => {
                let mut done: i32 = 0;
                while done < n
                    invariant
                        self.wf(),
                        stack_evolves(old(self).scopes(), self.scopes()),
                        self.budget <= old(self).budget,
                        self.cancellable == old(self).cancellable,
                self.library_table() == old(self).library_table(),
                        whole == run_counted(iters@, body@, old(self).machine()),
                        whole is Some ==> whole == run_times(
                            body@,
                            done as int,
                            n as int,
                            self.machine(),
                        ),
                    decreases n - done,
                {
                    let value = self.eval(body)?;
                    match loop_flow(value) {
                        LoopFlow::Stop => {
                            return Ok(Value::Nil);
                        },
                        LoopFlow::Return(v) => {
                            return Ok(v);
                        },
                        LoopFlow::Continue => {},
                    }
                    done += 1;
                }
                Ok(Value::Nil)
            },
            Err(e) => Err(e),
        }
    }

    fn eval_for(
        &mut self,
        var: &String,
        start: &Spanned<Expression>,
        end: &Spanned<Expression>,
        step: &Option<Box<Spanned<Expression>>>,
        body: &Spanned<Expression>,
    ) -> (r: Result<Value, Spanned<Error>>)
        requires
            old(self).wf(),
        ensures
            final(self).wf(),
            stack_evolves(old(self).scopes(), final(self).scopes()),
            final(self).budget <= old(self).budget,
            final(self).cancellable == old(self).cancellable,
            final(self).library_table() == old(self).library_table(),
            run_for_loop(
                var@,
                start@,
                end@,
                step_view(step),
                body@,
                old(self).machine(),
            ) matches Some((out, m)) ==> {
                ||| eval_view(r) == out && final(self).machine() == m
                ||| old(self).cancellable is Some && interrupted(r)
            },
            r matches Ok(v) ==> v@ is Nil || v@ is EvaluatedReturn,
        decreases old(self).budget, 6int,
    {
        let ghost whole = run_for_loop(var@, start@, end@, step_view(step), body@, self.machine());
        let vstart = self.eval(start)?;
        let vend = self.eval(end)?;
        let vstep = match step {
            Some(s) => self.eval(s)?,
            None => Value::Int(1),
        };
        let bounds = for_bounds(&vstart, &vend, &vstep);
        match bounds {
            Ok((first, last, by)) => {
                let mut i: i32 = first;
                while i < last
                    invariant
                        self.wf(),
                        stack_evolves(old(self).scopes(), self.scopes()),
                        self.budget <= old(self).budget,
                        self.cancellable == old(self).cancellable,
                self.library_table() == old(self).library_table(),
                        whole == run_for_loop(
                            var@,
                            start@,
                            end@,
                            step_view(step),
                            body@,
                            old(self).machine(),
                        ),
                        whole is Some ==> whole == run_for(
                            var@,
                            body@,
                            i,
                            last,
                            by,
                            self.machine(),
                        ),
                    decreases self.budget,
                {
                    let ghost before = self.scopes();
                    let top = self.stack.len() - 1;
                    self.stack[top].insert(var.clone(), Value::Int(i));
                    proof {
                        lemma_top_insert(before, self.scopes(), var@, ValueView::Int(i));
                        assert(self.scopes() =~= before.update(
                            before.len() - 1,
                            rebound(before.last(), var@, ValueView::Int(i)),
                        ));
                    }
                    let value = self.eval(body)?;
                    match loop_flow(value) {
                        LoopFlow::Stop => {
                            return Ok(Value::Nil);
                        },
                        LoopFlow::Return(v) => {
                            return Ok(v);
                        },
                        LoopFlow::Continue => {},
                    }
                    i = i.wrapping_add(by);
                }
                Ok(Value::Nil)
            },
            Err(ForFault::Start) => Err(
                Spanned::new(Error::InvalidForStart, copy_span(&start.span)),
            ),
            Err(ForFault::End) => Err(Spanned::new(Error::InvalidForEnd, copy_span(&end.span))),
            Err(ForFault::Step) => {
                let span = match step {
                    Some(s) => copy_span(&s.span),
                    None => copy_span(&start.span),
                };
                Err(Spanned::new(Error::InvalidForStep, span))
            },
        }
    }

    fn eval_while(&mut self, cond: &Spanned<Expression>, body: &Spanned<Expression>) -> (r: Result<
        Value,
        Spanned<Error>,
    >)
        requires
            old(self).wf(),
        ensures
            final(self).wf(),
            stack_evolves(old(self).scopes(), final(self).scopes()),
            final(self).budget <= old(self).budget,
            final(self).cancellable == old(self).cancellable,
            final(self).library_table() == old(self).library_table(),
            run_while(cond@, body@, old(self).machine()) matches Some((out, m)) ==> {
                ||| eval_view(r) == out && final(self).machine() == m
                ||| old(self).cancellable is Some && interrupted(r)
            },
            r matches Ok(v) ==> v@ is Nil || v@ is EvaluatedReturn,
        decreases old(self).budget, 6int,
    {
        let ghost whole = run_while(cond@, body@, self.machine());
        loop
            invariant
                self.wf(),
                stack_evolves(old(self).scopes(), self.scopes()),
                self.budget <= old(self).budget,
                self.cancellable == old(self).cancellable,
                self.library_table() == old(self).library_table(),
                whole == run_while(cond@, body@, old(self).machine()),
                whole is Some ==> whole == run_while(
                    cond@,
                    body@,
                    self.machine(),
                ),
            decreases self.budget,
        {
            let c = self.eval(cond)?;
            if !is_true(&c) {
                return Ok(Value::Nil);
            }
            let value = self.eval(body)?;
            match loop_flow(value) {
                LoopFlow::Stop => {
                    return Ok(Value::Nil);
                },
                LoopFlow::Return(v) => {
                    return Ok(v);
                },
                LoopFlow::Continue => {},
            }
        }
    }

    fn eval_assignment(
        &mut self,
        target: &Spanned<Expression>,
        value: &Spanned<Expression>,
    ) -> (r: Result<Value, Spanned<Error>>)
        requires
            old(self).wf(),
        ensures
            final(self).wf(),
            stack_evolves(old(self).scopes(), final(self).scopes()),
            final(self).budget <= old(self).budget,
            final(self).cancellable == old(self).cancellable,
            final(self).library_table() == old(self).library_table(),
            run_assignment(target@, value@, old(self).machine()) matches Some((out, m)) ==> {
                ||| eval_view(r) == out && final(self).machine() == m
                ||| old(self).cancellable is Some && interrupted(r)
            },
        decreases old(self).budget, 6int,
    {
        match &target.item {
            Expression::Variable { parent, name } => {
                let value = self.eval(value)?;
                match parent {
                    Some(parent) => {
                        let parent = self.eval(parent)?;
                        match parent {
                            Value::Object(object) => {
                                let key = HashableValue::String(name.clone());
                                match self.objects.set_field(object, key, value) {
                                    Ok(before) => Ok(
                                        match before {
                                            Some(v) => v,
                                            None => Value::Nil,
                                        },
                                    ),
                                    Err(_) => Err(
                                        Spanned::new(not_an_object(), copy_span(&target.span)),
                                    ),
                                }
                            },
                            _ => Err(Spanned::new(not_an_object(), copy_span(&target.span))),
                        }
                    },
                    None => {
                        let ghost before = self.machine();
                        let ghost value_view = value@;
                        let r = self.assign(name.clone(), value);
                        proof {
                            let at = choose|i: int| assignment_target(before.scopes, name@, i);
                            assert(assignment_target(before.scopes, name@, at));
                        }
                        Ok(r)
                    },
                }
            },
            _ => Err(Spanned::new(Error::ThisIsNotAssignable, copy_span(&target.span))),
        }
    }

    fn eval_objdef(&mut self, object: &Vec<(Spanned<Expression>, Spanned<Expression>)>) -> (r:
        Result<Value, Spanned<Error>>)
        requires
            old(self).wf(),
        ensures
            final(self).wf(),
            stack_evolves(old(self).scopes(), final(self).scopes()),
            final(self).budget <= old(self).budget,
            final(self).cancellable == old(self).cancellable,
            final(self).library_table() == old(self).library_table(),
            run_object(
                expr_pairs_view(object),
                0,
                Map::empty(),
                old(self).machine(),
            ) matches Some((out, m)) ==> {
                ||| eval_view(r) == out && final(self).machine() == m
                ||| old(self).cancellable is Some && interrupted(r)
            },
            r matches Ok(v) ==> v@ is Object,
        decreases old(self).budget, 6int,
    {
        let ghost pairs = expr_pairs_view(object);
        let ghost whole = run_object(pairs, 0, Map::empty(), self.machine());
        let mut made = TSObject::new();
        let mut i: usize = 0;
        while i < object.len()
            invariant
                i <= object.len(),
                self.wf(),
                stack_evolves(old(self).scopes(), self.scopes()),
                self.budget <= old(self).budget,
                self.cancellable == old(self).cancellable,
                self.library_table() == old(self).library_table(),
                pairs == expr_pairs_view(object),
                made@.props == Set::<Seq<char>>::empty(),
                whole == run_object(pairs, 0, Map::empty(), old(self).machine()),
                whole is Some ==> whole == run_object(
                    pairs,
                    i as int,
                    made@.fields,
                    self.machine(),
                ),
            decreases object.len() - i,
        {
            proof {
                assert(pairs[i as int] == (object[i as int].0@, object[i as int].1@));
            }
            let key_value = self.eval(&object[i].0)?;
            let key = match HashableValue::try_from(key_value) {
                Ok(k) => k,
                Err(err) => {
                    return Err(
                        Spanned::new(Error::RuntimeError(err), copy_span(&object[i].0.span)),
                    );
                },
            };
            let value = self.eval(&object[i].1)?;
            made.insert(key, value);
            i += 1;
        }
        let ghost made_view = made@;
        let at = self.objects.put(made);
        proof {
            assert(made_view == TSObjectView { fields: made_view.fields, props: Set::empty() });
        }
        Ok(Value::Object(at))
    }

    /// Reads a name: a field of an object where one is given, a variable of
    /// the stack otherwise. A computed property is run, and what it gives
    /// is what was read.
    fn get_var(&mut self, name: &String, parent_obj: Option<Value>) -> (r: Result<Value, Error>)
        requires
            old(self).wf(),
        ensures
            final(self).wf(),
            stack_evolves(old(self).scopes(), final(self).scopes()),
            final(self).budget <= old(self).budget,
            final(self).cancellable == old(self).cancellable,
            final(self).library_table() == old(self).library_table(),
            read_name(
                name@,
                parent_view(parent_obj),
                old(self).machine(),
            ) matches Some((out, m)) ==> {
                ||| read_view(r) == out && final(self).machine() == m
                ||| old(self).cancellable is Some && read_interrupted(r)
            },
        decreases old(self).budget, 4int,
    {
        let ghost before = self.machine();
        let reading = match parent_obj {
            Some(parent_obj) => {
                match parent_obj {
                    Value::Object(object) => {
                        match self.objects.get(object) {
                            Some(fields) => {
                                let key = HashableValue::String(name.clone());
                                match fields.get(&key) {
                                    Some(stored) => read_binding(stored, fields.is_prop(name)),
                                    None => Err(undefined(name)),
                                }
                            },
                            None => Err(not_an_object()),
                        }
                    },
                    _ => Err(not_an_object()),
                }
            },
            None => {
                let r = self.lookup(name);
                proof {
                    if !unbound(before.scopes, name@) {
                        let at = choose|i: int| binds_innermost(before.scopes, name@, i);
                        lemma_bound_somewhere(before.scopes, name@);
                        assert(binds_innermost(before.scopes, name@, at));
                    }
                }
                r
            },
        };
        proof {
            assert(reading_result_view(reading) == found(name@, parent_view(parent_obj), before));
        }
        match reading? {
            Reading::Value(v) => Ok(v),
            Reading::Invoke(callable) => {
                let no_args: Vec<Spanned<Expression>> = Vec::new();
                proof {
                    assert(expr_list_view(&no_args) =~= Seq::<Spanned<ExprView>>::empty());
                }
                match self.call_callable(&callable, Range { start: 0, end: 0 }, &no_args) {
                    Ok(v) => Ok(v),
                    Err(err) => Err(err.item),
                }
            },
        }
    }

    fn eval_args(&mut self, args: &Vec<Spanned<Expression>>) -> (r: Result<
        Vec<Value>,
        Spanned<Error>,
    >)
        requires
            old(self).wf(),
        ensures
            final(self).wf(),
            stack_evolves(old(self).scopes(), final(self).scopes()),
            final(self).budget <= old(self).budget,
            final(self).cancellable == old(self).cancellable,
            final(self).library_table() == old(self).library_table(),
            run_args(
                expr_list_view(args),
                0,
                Seq::empty(),
                old(self).machine(),
            ) matches Some((out, m)) ==> {
                ||| args_view(r) == out && final(self).machine() == m
                ||| old(self).cancellable is Some && args_interrupted(r)
            },
            r matches Ok(values) ==> values.len() == args.len(),
        decreases old(self).budget, 2int,
    {
        let ghost items = expr_list_view(args);
        let ghost whole = run_args(items, 0, Seq::empty(), self.machine());
        let mut values: Vec<Value> = Vec::new();
        let mut i: usize = 0;
        proof {
            assert(values_view(values@) =~= Seq::<ValueView>::empty());
        }
        while i < args.len()
            invariant
                i <= args.len(),
                values.len() == i,
                self.wf(),
                stack_evolves(old(self).scopes(), self.scopes()),
                self.budget <= old(self).budget,
                self.cancellable == old(self).cancellable,
                self.library_table() == old(self).library_table(),
                items == expr_list_view(args),
                whole == run_args(items, 0, Seq::empty(), old(self).machine()),
                whole is Some ==> whole == run_args(
                    items,
                    i as int,
                    values_view(values@),
                    self.machine(),
                ),
            decreases args.len() - i,
        {
            proof {
                assert(items[i as int] == args[i as int]@);
            }
            let v = self.eval(&args[i])?;
            let ghost before = values_view(values@);
            let ghost v_view = v@;
            values.push(v);
            proof {
                assert(values_view(values@) =~= before.push(v_view));
            }
            i += 1;
        }
        Ok(values)
    }

    /// The first place of the table of libraries that holds the library.
    fn find_library(&self, name: &String) -> (r: Option<usize>)
        ensures
            match r {
                Some(i) => holds_library(self.library_table(), name@, i as int),
                None => no_library(self.library_table(), name@),
            },
    {
        let mut i: usize = 0;
        while i < self.libctx.len()
            invariant
                i <= self.libctx.len(),
                forall|j: int| 0 <= j < i ==> (#[trigger] self.library_table()[j]).0 != name@,
            decreases self.libctx.len() - i,
        {
            if self.libctx[i].0 == *name {
                return Some(i);
            }
            i += 1;
        }
        None
    }

    /// Calls a function with the given argument expressions. The arguments
    /// are evaluated in the caller's scope, in order. A native function is
    /// run by its library; a function of the program runs in a scope of its
    /// own that binds its parameters.
    fn call_callable(
        &mut self,
        callable: &Callable,
        span: Range<usize>,
        args: &Vec<Spanned<Expression>>,
    ) -> (r: Result<Value, Spanned<Error>>)
        requires
            old(self).wf(),
        ensures
            final(self).wf(),
            stack_evolves(old(self).scopes(), final(self).scopes()),
            final(self).budget <= old(self).budget,
            final(self).cancellable == old(self).cancellable,
            final(self).library_table() == old(self).library_table(),
            run_call(
                callable@,
                span,
                expr_list_view(args),
                old(self).machine(),
            ) matches Some((out, m)) ==> {
                ||| eval_view(r) == out && final(self).machine() == m
                ||| old(self).cancellable is Some && interrupted(r)
            },
        decreases old(self).budget, 3int,
    {
        match callable {
            Callable::NativeFunc(func) => {
                let func_args = self.eval_args(args)?;
                self.call_native(func, func_args, span)
            },
            Callable::Function(func) => {
                check_arg_count(args.len(), func.args.len(), &span)?;
                let values = self.eval_args(args)?;
                self.call_function(func, values)
            },
        }
    }

    /// Runs a native function on evaluated arguments, for a call at `span`.
    /// The library that the function names is asked for the function by
    /// its name, with the function's object and with the arguments as they
    /// are; what it answers is the outcome of the call. The library works
    /// on the objects and with the host: the scopes are not its to change.
    /// A function of a library that was not imported is an error.
    pub fn call_native(&mut self, func: &NativeFunc, values: Vec<Value>, span: Range<usize>) -> (r:
        Result<Value, Spanned<Error>>)
        ensures
            final(self).stack == old(self).stack,
            final(self).budget == old(self).budget,
            final(self).cancellable == old(self).cancellable,
            final(self).library_table() == old(self).library_table(),
            no_library(old(self).library_table(), func.library@) ==> final(self).objects == old(
                self,
            ).objects && eval_view(r) == Err::<ValueView, (ErrorView, Range<usize>)>(
                (ErrorView::RuntimeError(RuntimeErrorView::NativeLibraryError(func.library@)), span),
            ),
            run_native(func@, span, values_view(values@), old(self).machine()) matches Some(
                (out, m),
            ) ==> eval_view(r) == out && final(self).machine() == m,
            forall|at: int| #[trigger]
                holds_library(old(self).library_table(), func.library@, at) ==> match old(
                    self,
                ).libctx[at].1 {
                    LibraryState::Base => final(self).objects == old(self).objects && (
                    stdlib::std_answer(func.name@, values_view(values@)) matches Some(answer)
                        ==> eval_view(r) == native_outcome_of(answer, span)),
                    LibraryState::Foreign(state) => asked(
                        &state,
                        func@,
                        values_view(values@),
                        span,
                        eval_view(r),
                    ),
                },
    {
        let ghost table = self.library_table();
        let ghost given = values_view(values@);
        let request = native_request(func, values);
        match self.find_library(&func.library) {
            Some(at) => {
                proof {
                    lemma_one_first_library(table, func.library@, at as int);
                }
                let name = request.name.as_str();
                let this = request.this;
                let ghost args = request.args;
                let answer = match &mut self.libctx[at].1 {
                    LibraryState::Base => call_std(name, request.args, &mut self.host),
                    LibraryState::Foreign(ctx) => ctx.call(
                        name,
                        this,
                        request.args,
                        &mut self.objects,
                        &mut self.host,
                    ),
                };
                let ghost answered = answer;
                let r = native_outcome(answer, span);
                proof {
                    assert(self.library_table() =~= table);
                    assert forall|i: int| #[trigger]
                        holds_library(table, func.library@, i) implies i == at by {
                        lemma_one_first_library(table, func.library@, i);
                    }
                    match old(self).libctx[at as int].1 {
                        LibraryState::Base => {},
                        LibraryState::Foreign(state) => {
                            assert(state.gives(name, this, args, answered));
                            assert(asked(&state, func@, given, span, eval_view(r)));
                        },
                    }
                }
                r
            },
            None => {
                proof {
                    assert forall|i: int| #[trigger]
                        holds_library(table, func.library@, i) implies false by {
                        assert(table[i].0 == func.library@);
                    }
                }
                Err(
                    Spanned::new(
                        Error::RuntimeError(RuntimeError::NativeLibraryError(func.library.clone())),
                        span,
                    ),
                )
            },
        }
    }

    /// Runs a function of the program on evaluated arguments, one for each
    /// parameter. The body runs in a scope of its own, which is gone
    /// when the call ends: no scope of the stack has gained or lost a name
    /// by the call. A name that the body assigns to and that no scope
    /// binds is bound in the scope of the call and gone with it; a name
    /// that a scope of the stack binds is rebound there.
    pub fn call_function(&mut self, func: &TSFunc, values: Vec<Value>) -> (r: Result<
        Value,
        Spanned<Error>,
    >)
        requires
            old(self).wf(),
            values.len() == func.args.len(),
        ensures
            final(self).wf(),
            names_kept(old(self).scopes(), final(self).scopes()),
            stack_evolves(old(self).scopes(), final(self).scopes()),
            final(self).budget <= old(self).budget,
            final(self).cancellable == old(self).cancellable,
            final(self).library_table() == old(self).library_table(),
            run_function(
                func@,
                values_view(values@),
                old(self).machine(),
            ) matches Some((out, m)) ==> {
                ||| eval_view(r) == out && final(self).machine() == m
                ||| old(self).cancellable is Some && interrupted(r)
            },
        decreases old(self).budget, 2int,
    {
        let subst = bind_parameters(&func.args, values);
        let ghost before = self.scopes();
        self.stack.push(subst);
        proof {
            assert(self.scopes() =~= before.push(subst@));
            assert(subst@ == ScopeView { vars: subst@.vars, props: Set::<Seq<char>>::empty() });
        }
        let ghost pushed = self.scopes();
        let result = self.eval(&func.body);
        let ghost after = self.scopes();
        self.stack.pop();
        proof {
            assert(self.scopes() =~= after.drop_last());
            assert forall|i: int| 0 <= i < before.len() implies (#[trigger] self.scopes()[i]).props
                == before[i].props && self.scopes()[i].vars.dom() == before[i].vars.dom() by {
                assert(after[i] == self.scopes()[i]);
                assert(pushed[i] == before[i]);
            }
        }
        match result {
            Ok(v) => Ok(unwrap_return(v)),
            Err(e) => Err(e),
        }
    }

    /// Evaluates both operands, the left one first, and applies the
    /// operator to what they gave.
    fn math_operator(
        &mut self,
        expr_a: &Spanned<Expression>,
        expr_b: &Spanned<Expression>,
        op: MathOperator,
    ) -> (r: Result<Value, Spanned<Error>>)
        requires
            old(self).wf(),
        ensures
            final(self).wf(),
            stack_evolves(old(self).scopes(), final(self).scopes()),
            final(self).budget <= old(self).budget,
            final(self).cancellable == old(self).cancellable,
            final(self).library_table() == old(self).library_table(),
            run_operator(expr_a@, expr_b@, op, old(self).machine()) matches Some((out, m)) ==> {
                ||| eval_view(r) == out && final(self).machine() == m
                ||| old(self).cancellable is Some && interrupted(r)
            },
            r matches Ok(v) ==> operator_shape(op, v@),
        decreases old(self).budget, 2int,
    {
        let a = self.eval(expr_a)?;
        let b = self.eval(expr_b)?;
        math_operation(op, &a, &b, copy_span(&expr_a.span), copy_span(&expr_b.span), &self.host)
    }
}

/// Whether an evaluation was interrupted.
pub open spec fn interrupted(r: Result<Value, Spanned<Error>>) -> bool {
    r matches Err(e) && e.item@ is Interrupted
}

pub open spec fn read_interrupted(r: Result<Value, Error>) -> bool {
    r matches Err(e) && e@ is Interrupted
}

pub open spec fn args_interrupted(r: Result<Vec<Value>, Spanned<Error>>) -> bool {
    r matches Err(e) && e.item@ is Interrupted
}

/// The view of an optional step expression.
pub open spec fn step_view(step: &Option<Box<Spanned<Expression>>>) -> Option<Spanned<ExprView>> {
    match step {
        Some(s) => Some(s@),
        None => None,
    }
}

/// The view of the object that a name is read in, if one is given.
pub open spec fn parent_view(parent: Option<Value>) -> Option<ValueView> {
    match parent {
        Some(v) => Some(v@),
        None => None,
    }
}

pub open spec fn read_view(r: Result<Value, Error>) -> Result<ValueView, ErrorView> {
    match r {
        Ok(v) => Ok(v@),
        Err(e) => Err(e@),
    }
}

pub open spec fn args_view(r: Result<Vec<Value>, Spanned<Error>>) -> Result<
    Seq<ValueView>,
    (ErrorView, Range<usize>),
> {
    match r {
        Ok(values) => Ok(values_view(values@)),
        Err(e) => Err((e.item@, e.span)),
    }
}

/// A name that some scope binds is bound by an innermost one.
pub proof fn lemma_bound_somewhere(scopes: Seq<ScopeView>, name: Seq<char>)
    requires
        !unbound(scopes, name),
    ensures
        exists|i: int| binds_innermost(scopes, name, i),
    decreases scopes.len(),
{
    let j = choose|j: int| 0 <= j < scopes.len() && (#[trigger] scopes[j]).vars.dom().contains(name);
    if scopes.last().vars.dom().contains(name) {
        assert(binds_innermost(scopes, name, scopes.len() - 1));
    } else {
        let rest = scopes.drop_last();
        assert(rest[j] == scopes[j]);
        lemma_bound_somewhere(rest, name);
        let i = choose|i: int| binds_innermost(rest, name, i);
        assert(binds_innermost(scopes, name, i)) by {
            assert(rest[i] == scopes[i]);
            assert forall|k: int| i < k < scopes.len() implies !(
            #[trigger] scopes[k]).vars.dom().contains(name) by {
                if k < scopes.len() - 1 {
                    assert(rest[k] == scopes[k]);
                }
            }
        }
    }
}

/// The kinds of value that an operator can give.
pub open spec fn operator_shape(op: MathOperator, v: ValueView) -> bool {
    match op {
        MathOperator::Addition => v is Int || v is Float || v is String,
        MathOperator::Subtraction | MathOperator::Multiply | MathOperator::Division => v is Int
            || v is Float,
        _ => v is Bool,
    }
}

/// The kinds of value that a node can give, by the kind of the node.
pub open spec fn value_shape(e: crate::ast::ExprView, v: ValueView) -> bool {
    match e {
        crate::ast::ExprView::Return { .. } => v is EvaluatedReturn,
        crate::ast::ExprView::Break => v is Break,
        crate::ast::ExprView::LoopFinite { .. }
        | crate::ast::ExprView::LoopInfinite { .. }
        | crate::ast::ExprView::For { .. }
        | crate::ast::ExprView::While { .. } => v is Nil || v is EvaluatedReturn,
        crate::ast::ExprView::FnDef { .. } => v is Nil,
        crate::ast::ExprView::ObjDef { .. } => v is Object,
        crate::ast::ExprView::Negation(_) => v is Int || v is Float,
        crate::ast::ExprView::Addition(_, _) => operator_shape(MathOperator::Addition, v),
        crate::ast::ExprView::Subtraction(_, _)
        | crate::ast::ExprView::Multiply(_, _)
        | crate::ast::ExprView::Division(_, _) => v is Int || v is Float,
        crate::ast::ExprView::Eq(_, _)
        | crate::ast::ExprView::Neq(_, _)
        | crate::ast::ExprView::Lt(_, _)
        | crate::ast::ExprView::Gt(_, _)
        | crate::ast::ExprView::Lte(_, _)
        | crate::ast::ExprView::Gte(_, _) => v is Bool,
        crate::ast::ExprView::Int(_) => v is Int,
        crate::ast::ExprView::Float(_) => v is Float,
        crate::ast::ExprView::String(_) => v is String,
        crate::ast::ExprView::Image(_) => v is Image,
        crate::ast::ExprView::Key(_) => v is Key,
        crate::ast::ExprView::Nil => v is Nil,
        _ => true,
    }
}

/// The kinds of value that a whole program can give: those of its node with
/// one `return` wrapper taken off.
pub open spec fn root_shape(e: crate::ast::ExprView, v: ValueView) -> bool {
    exists|w: ValueView| value_shape(e, w) && v == unwrapped(w)
}

/// Whether a value is the boolean `true`. Conditions hold for this value
/// and for no other.
pub fn is_true(v: &Value) -> (r: bool)
    ensures
        r == (v@ == ValueView::Bool(true)),
{
    match v {
        Value::Bool(b) => *b,
        _ => false,
    }
}

/// Which bound of a `for` loop is no integer.
#[derive(Clone, Copy, Debug, PartialEq, Eq, Structural)]
pub enum ForFault {
    Start,
    End,
    Step,
}

/// The bounds of a `for` loop from what its three expressions gave: all
/// three must be integers, and the first that is not is the fault.
pub open spec fn for_bounds_of(start: ValueView, end: ValueView, step: ValueView) -> Result<
    (i32, i32, i32),
    ForFault,
> {
    match start {
        ValueView::Int(a) => match end {
            ValueView::Int(b) => match step {
                ValueView::Int(c) => Ok((a, b, c)),
                _ => Err(ForFault::Step),
            },
            _ => Err(ForFault::End),
        },
        _ => Err(ForFault::Start),
    }
}

pub fn for_bounds(start: &Value, end: &Value, step: &Value) -> (r: Result<
    (i32, i32, i32),
    ForFault,
>)
    ensures
        r == for_bounds_of(start@, end@, step@),
{
    match start {
        Value::Int(a) => match end {
            Value::Int(b) => match step {
                Value::Int(c) => Ok((*a, *b, *c)),
                _ => Err(ForFault::Step),
            },
            _ => Err(ForFault::End),
        },
        _ => Err(ForFault::Start),
    }
}

/// The scope of a call: each parameter bound to its argument. Where a name
/// stands twice among the parameters, the later argument is the one bound.
pub open spec fn parameters_bound(names: Seq<Seq<char>>, values: Seq<ValueView>) -> Map<
    Seq<char>,
    ValueView,
>
    decreases names.len(),
{
    if names.len() == 0 || values.len() != names.len() {
        Map::empty()
    } else {
        parameters_bound(names.drop_last(), values.drop_last()).insert(names.last(), values.last())
    }
}

pub fn bind_parameters(names: &Vec<String>, values: Vec<Value>) -> (r: Scope)
    requires
        names.len() == values.len(),
    ensures
        r@.vars == parameters_bound(names_view(names), values_view(values@)),
        r@.props == Set::<Seq<char>>::empty(),
{
    let mut scope = Scope::new();
    let mut values = values;
    let ghost all = values_view(values@);
    let ghost all_names = names_view(names);
    let n = names.len();
    let mut rest: Vec<Value> = Vec::new();
    // The arguments are taken from the end; `rest` holds them in reverse.
    while values.len() > 0
        invariant
            values.len() + rest.len() == n,
            n == names.len(),
            all.len() == n,
            forall|j: int| 0 <= j < values.len() ==> (#[trigger] values[j])@ == all[j],
            forall|j: int| 0 <= j < rest.len() ==> (#[trigger] rest[j])@ == all[n - 1 - j],
        decreases values.len(),
    {
        let v = values.pop().unwrap();
        rest.push(v);
    }
    let mut i: usize = 0;
    while i < n
        invariant
            i <= n,
            n == names.len(),
            all.len() == n,
            all_names == names_view(names),
            rest.len() == n - i,
            forall|j: int| 0 <= j < rest.len() ==> (#[trigger] rest[j])@ == all[n - 1 - j],
            scope@.vars == parameters_bound(
                all_names.subrange(0, i as int),
                all.subrange(0, i as int),
            ),
            scope@.props == Set::<Seq<char>>::empty(),
        decreases n - i,
    {
        let v = rest.pop().unwrap();
        proof {
            assert(all_names.subrange(0, i + 1).drop_last() =~= all_names.subrange(0, i as int));
            assert(all.subrange(0, i + 1).drop_last() =~= all.subrange(0, i as int));
            assert(all_names.subrange(0, i + 1).last() == names[i as int]@);
            assert(all.subrange(0, i + 1).last() == v@);
        }
        scope.insert(names[i].clone(), v);
        i += 1;
    }
    proof {
        assert(all_names.subrange(0, n as int) =~= all_names);
        assert(all.subrange(0, n as int) =~= all);
    }
    scope
}

/// Binding a name in the innermost scope is a change that evaluation may
/// make to a stack.
pub proof fn lemma_top_insert(
    before: Seq<ScopeView>,
    after: Seq<ScopeView>,
    name: Seq<char>,
    value: ValueView,
)
    requires
        before.len() >= 1,
        after.len() == before.len(),
        forall|i: int| 0 <= i < before.len() - 1 ==> after[i] == before[i],
        after.last().props == before.last().props,
        after.last().vars == before.last().vars.insert(name, value),
    ensures
        stack_evolves(before, after),
{
}

} // verus!
