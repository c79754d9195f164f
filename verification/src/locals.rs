//! The arguments and local variables of a stack frame, by name.
use crate::value::Value;
use hashbrown::HashMap;
use vstd::prelude::*;

verus! {

/// A hash map from the names of variables to their values.
#[verifier::external_body]
#[derive(Debug)]
pub struct Locals {
    map: HashMap<String, Value>,
}

/// What the map holds.
pub uninterp spec fn contents(locals: Locals) -> Map<Seq<char>, Value>;

impl View for Locals {
    type V = Map<Seq<char>, Value>;

    open spec fn view(&self) -> Map<Seq<char>, Value> {
        contents(*self)
    }
}

/// The map that holds nothing.
pub open spec fn no_locals() -> Map<Seq<char>, Value> {
    Map::empty()
}

/// The value that stands at a name, if any.
pub open spec fn value_in(locals: Map<Seq<char>, Value>, name: Seq<char>) -> Option<Value> {
    if locals.dom().contains(name) {
        Some(locals[name])
    } else {
        None
    }
}

/// Calls `hashbrown::HashMap::new`, which makes an empty map.
#[verifier::external_body]
fn map_new() -> (locals: Locals)
    ensures
        contents(locals) == no_locals(),
{
    Locals { map: HashMap::new() }
}

/// Calls `hashbrown::HashMap::insert`: the value stands at the key afterwards, nothing
/// else changes, and the value that stood there before is handed back.
#[verifier::external_body]
fn map_insert(locals: &mut Locals, name: String, value: Value) -> (previous: Option<Value>)
    ensures
        contents(*final(locals)) == contents(*old(locals)).insert(name@, value),
        previous == value_in(contents(*old(locals)), name@),
{
    locals.map.insert(name, value)
}

/// Calls `hashbrown::HashMap::get`, which finds the value that stands at the key, if any.
#[verifier::external_body]
fn map_get<'a>(locals: &'a Locals, name: &str) -> (value: Option<&'a Value>)
    ensures
        match value {
            Some(value) => value_in(contents(*locals), name@) == Some(*value),
            None => value_in(contents(*locals), name@) is None,
        },
{
    locals.map.get(name)
}

/// Calls `hashbrown::HashMap::is_empty`, which tells whether the map holds no key.
#[verifier::external_body]
fn map_is_empty(locals: &Locals) -> (empty: bool)
    ensures
        empty == (contents(*locals) == no_locals()),
{
    locals.map.is_empty()
}

/// Calls `hashbrown::HashMap::len`, which counts the keys that the map holds.
#[verifier::external_body]
fn map_len(locals: &Locals) -> (len: usize)
    ensures
        len == contents(*locals).dom().len(),
{
    locals.map.len()
}

/// What a list of names says.
pub open spec fn name_views(names: Seq<String>) -> Seq<Seq<char>> {
    names.map_values(|name: String| name@)
}

/// Calls `hashbrown::HashMap::keys`, which visits every key that the map holds once. The
/// order is left unsaid.
#[verifier::external_body]
fn map_keys(locals: &Locals) -> (names: Vec<String>)
    ensures
        name_views(names@).to_set() == contents(*locals).dom(),
        name_views(names@).no_duplicates(),
{
    locals.map.keys().cloned().collect()
}

/// Calls `hashbrown::HashMap::clone`, which makes a map that holds a clone of every key
/// and value; a clone of a name or of a value equals it.
#[verifier::external_body]
fn map_clone(locals: &Locals) -> (copy: Locals)
    ensures
        contents(copy) == contents(*locals),
{
    Locals { map: locals.map.clone() }
}

impl Clone for Locals {
    fn clone(&self) -> (copy: Self)
        ensures
            copy@ == self@,
    {
        map_clone(self)
    }
}

impl Locals {
    /// An empty map.
    pub fn new() -> (locals: Self)
        ensures
            locals@ == no_locals(),
    {
        map_new()
    }

    /// Puts a value at a name and hands back the one that stood there.
    pub fn insert(&mut self, name: String, value: Value) -> (previous: Option<Value>)
        ensures
            final(self)@ == old(self)@.insert(name@, value),
            previous == value_in(old(self)@, name@),
    {
        map_insert(self, name, value)
    }

    /// The value at a name, if any.
    pub fn get(&self, name: &str) -> (value: Option<&Value>)
        ensures
            match value {
                Some(value) => value_in(self@, name@) == Some(*value),
                None => value_in(self@, name@) is None,
            },
    {
        map_get(self, name)
    }

    /// Whether a value stands at the name.
    pub fn contains_key(&self, name: &str) -> (contained: bool)
        ensures
            contained == self@.dom().contains(name@),
    {
        map_get(self, name).is_some()
    }

    /// The names that have a value, each once, in no particular order.
    pub fn names(&self) -> (names: Vec<String>)
        ensures
            name_views(names@).to_set() == self@.dom(),
            name_views(names@).no_duplicates(),
            self@.dom().finite(),
            names.len() == self@.dom().len(),
    {
        let names: Vec<String> = map_keys(self);
        proof {
            name_views(names@).unique_seq_to_set();
        }
        names
    }

    /// How many names have a value.
    pub fn len(&self) -> (len: usize)
        ensures
            len == self@.dom().len(),
    {
        map_len(self)
    }

    /// Whether no name has a value.
    pub fn is_empty(&self) -> (empty: bool)
        ensures
            empty == (self@ == no_locals()),
    {
        map_is_empty(self)
    }
}

} // verus!
