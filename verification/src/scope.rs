//! Scopes and objects: the two kinds of table that a running program reads
//! and writes.

use vstd::prelude::*;
use crate::table::{
    TableKey, bindings, find_entry, holds, lemma_bindings, lemma_bindings_push,
    lemma_bindings_update, lemma_members_push, members,
};
use crate::value::{
    HashableValue, HashableValueView, ObjectRef, ObjectStore, TSObject, Value, ValueView,
};

verus! {

impl TableKey for HashableValue {
    fn same_key(&self, other: &Self) -> (r: bool) {
        self.same(other)
    }
}

/// One frame of the call stack: the variables bound in it. A variable whose
/// name is in `vars_props` is a computed property: it holds a function of no
/// arguments that is run whenever the variable is read.
#[derive(Debug)]
pub struct Scope {
    pub vars: Vec<(String, Value)>,
    pub vars_props: Vec<String>,
}

pub struct ScopeView {
    pub vars: Map<Seq<char>, ValueView>,
    pub props: Set<Seq<char>>,
}

impl View for Scope {
    type V = ScopeView;

    open spec fn view(&self) -> ScopeView {
        ScopeView {
            vars: bindings::<String, Value>(self.vars@),
            props: members::<String>(self.vars_props@),
        }
    }
}

/// The value that a lookup gave, seen as a view.
pub open spec fn found_view(r: Option<&Value>) -> Option<ValueView> {
    match r {
        Some(v) => Some(v@),
        None => None,
    }
}

/// The value that an insertion replaced, seen as a view.
pub open spec fn replaced_view(r: Option<Value>) -> Option<ValueView> {
    match r {
        Some(v) => Some(v@),
        None => None,
    }
}

/// What a map binds a key to, if anything.
pub open spec fn binding<K, V>(m: Map<K, V>, key: K) -> Option<V> {
    if m.dom().contains(key) {
        Some(m[key])
    } else {
        None
    }
}

fn table_get<'a, K: TableKey>(entries: &'a Vec<(K, Value)>, key: &K) -> (r: Option<&'a Value>)
    ensures
        found_view(r) == binding(bindings::<K, Value>(entries@), key@),
{
    proof {
        lemma_bindings::<K, Value>(entries@, key@);
    }
    match find_entry(entries, key) {
        Some(i) => Some(&entries[i].1),
        None => None,
    }
}

fn table_insert<K: TableKey>(entries: &mut Vec<(K, Value)>, key: K, value: Value) -> (r: Option<
    Value,
>)
    ensures
        bindings::<K, Value>(final(entries)@) == bindings::<K, Value>(old(entries)@).insert(
            key@,
            value@,
        ),
        replaced_view(r) == binding(bindings::<K, Value>(old(entries)@), key@),
{
    proof {
        lemma_bindings::<K, Value>(entries@, key@);
    }
    match find_entry(entries, &key) {
        Some(i) => {
            let before = entries[i].1.clone();
            proof {
                lemma_bindings_update::<K, Value>(entries@, i as int, key, value);
            }
            entries.set(i, (key, value));
            Some(before)
        },
        None => {
            proof {
                lemma_bindings_push::<K, Value>(entries@, key, value);
            }
            entries.push((key, value));
            None
        },
    }
}

impl Scope {
    pub fn new() -> (r: Self)
        ensures
            r@.vars == Map::<Seq<char>, ValueView>::empty(),
            r@.props == Set::<Seq<char>>::empty(),
    {
        let r = Self { vars: Vec::new(), vars_props: Vec::new() };
        proof {
            assert(r@.props =~= Set::<Seq<char>>::empty());
        }
        r
    }

    /// The value bound to a name in this scope.
    pub fn get(&self, name: &String) -> (r: Option<&Value>)
        ensures
            found_view(r) == binding(self@.vars, name@),
    {
        table_get(&self.vars, name)
    }

    /// Binds a name to a value, and gives back what it was bound to before.
    pub fn insert(&mut self, name: String, value: Value) -> (r: Option<Value>)
        ensures
            final(self)@.vars == old(self)@.vars.insert(name@, value@),
            final(self)@.props == old(self)@.props,
            replaced_view(r) == binding(old(self)@.vars, name@),
    {
        table_insert(&mut self.vars, name, value)
    }

    /// Whether the name is marked as a computed property.
    pub fn is_prop(&self, name: &String) -> (r: bool)
        ensures
            r == self@.props.contains(name@),
    {
        holds(&self.vars_props, name)
    }

    /// Marks the name as a computed property.
    pub fn set_prop(&mut self, name: String)
        ensures
            final(self)@.props == old(self)@.props.insert(name@),
            final(self)@.vars == old(self)@.vars,
    {
        proof {
            lemma_members_push::<String>(self.vars_props@, name);
        }
        self.vars_props.push(name);
    }
}

pub struct TSObjectView {
    pub fields: Map<HashableValueView, ValueView>,
    pub props: Set<Seq<char>>,
}

impl View for TSObject {
    type V = TSObjectView;

    open spec fn view(&self) -> TSObjectView {
        TSObjectView {
            fields: bindings::<HashableValue, Value>(self.fields@),
            props: members::<String>(self.fields_props@),
        }
    }
}

impl TSObject {
    pub fn new() -> (r: Self)
        ensures
            r@.fields == Map::<HashableValueView, ValueView>::empty(),
            r@.props == Set::<Seq<char>>::empty(),
    {
        let r = Self { fields: Vec::new(), fields_props: Vec::new() };
        proof {
            assert(r@.props =~= Set::<Seq<char>>::empty());
        }
        r
    }

    /// The value of a field.
    pub fn get(&self, key: &HashableValue) -> (r: Option<&Value>)
        ensures
            found_view(r) == binding(self@.fields, key@),
    {
        table_get(&self.fields, key)
    }

    /// Sets a field, and gives back what it held before.
    pub fn insert(&mut self, key: HashableValue, value: Value) -> (r: Option<Value>)
        ensures
            final(self)@.fields == old(self)@.fields.insert(key@, value@),
            final(self)@.props == old(self)@.props,
            replaced_view(r) == binding(old(self)@.fields, key@),
    {
        table_insert(&mut self.fields, key, value)
    }

    /// Whether the field of this name is a computed property.
    pub fn is_prop(&self, name: &String) -> (r: bool)
        ensures
            r == self@.props.contains(name@),
    {
        holds(&self.fields_props, name)
    }

    /// Marks the field of this name as a computed property.
    pub fn set_prop(&mut self, name: String)
        ensures
            final(self)@.props == old(self)@.props.insert(name@),
            final(self)@.fields == old(self)@.fields,
    {
        proof {
            lemma_members_push::<String>(self.fields_props@, name);
        }
        self.fields_props.push(name);
    }
}

impl View for ObjectStore {
    type V = Seq<TSObjectView>;

    open spec fn view(&self) -> Seq<TSObjectView> {
        Seq::new(self.objects.len() as nat, |i: int| self.objects[i]@)
    }
}

impl ObjectStore {
    pub fn new() -> (r: Self)
        ensures
            r@.len() == 0,
    {
        Self { objects: Vec::new() }
    }

    /// Whether the handle names an object of this store.
    pub open spec fn has(&self, obj: ObjectRef) -> bool {
        obj.id < self@.len()
    }

    /// Puts an object into the store and gives its handle.
    pub fn put(&mut self, object: TSObject) -> (r: ObjectRef)
        ensures
            r.id == old(self)@.len(),
            final(self)@ == old(self)@.push(object@),
    {
        let id = self.objects.len();
        self.objects.push(object);
        proof {
            assert(self@ =~= old(self)@.push(object@));
        }
        ObjectRef { id }
    }

    /// The object that a handle names.
    pub fn get(&self, obj: ObjectRef) -> (r: Option<&TSObject>)
        ensures
            match r {
                Some(o) => self.has(obj) && o@ == self@[obj.id as int],
                None => !self.has(obj),
            },
    {
        if obj.id < self.objects.len() {
            Some(&self.objects[obj.id])
        } else {
            None
        }
    }

    /// Sets a field of an object and gives back what the field held before;
    /// `Err` when the handle names no object, and then nothing changes.
    pub fn set_field(&mut self, obj: ObjectRef, key: HashableValue, value: Value) -> (r: Result<
        Option<Value>,
        (),
    >)
        ensures
            r is Ok <==> old(self).has(obj),
            r is Err ==> final(self)@ == old(self)@,
            r matches Ok(before) ==> {
                &&& final(self)@ == old(self)@.update(
                    obj.id as int,
                    TSObjectView {
                        fields: old(self)@[obj.id as int].fields.insert(key@, value@),
                        props: old(self)@[obj.id as int].props,
                    },
                )
                &&& replaced_view(before) == binding(old(self)@[obj.id as int].fields, key@)
            },
    {
        if obj.id < self.objects.len() {
            let before = self.objects[obj.id].insert(key, value);
            proof {
                assert(self@ =~= old(self)@.update(
                    obj.id as int,
                    TSObjectView {
                        fields: old(self)@[obj.id as int].fields.insert(key@, value@),
                        props: old(self)@[obj.id as int].props,
                    },
                ));
            }
            Ok(before)
        } else {
            Err(())
        }
    }
}

} // verus!
