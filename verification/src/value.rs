//! Script values as the engine hands them over.
//!
//! A script value is plain data here. What only the engine can work out (what a
//! getter evaluates to, what the string conversion of an object gives, what a
//! setter does) is carried by the value as an outcome: that of the next read, or of the
//! next write, of the property.
use std::hash::{Hash, Hasher};
use std::rc::Rc;
use vstd::prelude::*;

verus! {

/// The types that a script value can have.
#[derive(Debug, Clone, Copy, PartialEq, Eq, Structural, Hash)]
pub enum Type {
    Uninitialized,
    Undefined,
    Null,
    Bool,
    Int,
    Float,
    String,
    Symbol,
    BigInt,
    Array,
    Function,
    Exception,
    Object,
}

/// The constructors of native errors.
#[derive(Debug, Clone, Copy, PartialEq, Eq, Structural, Hash)]
pub enum ErrorKind {
    Generic,
    Syntax,
    Type,
    Reference,
    Range,
    Internal,
}

/// What kind of object an object is.
#[derive(Debug, Clone, Copy, PartialEq, Eq, Structural, Hash)]
pub enum Class {
    Plain,
    Array,
    Function,
    Error(ErrorKind),
}

/// Why a read of a script value gave nothing.
#[derive(Debug)]
pub enum Failure {
    /// The script threw this value.
    Thrown(Rc<Value>),
    /// The text is not well-formed Unicode.
    Utf8,
    /// A value of type `from` stands where one of type `to` was asked for.
    FromJs { from: Type, to: Type },
}

/// A value of the script.
#[derive(Debug)]
pub enum Value {
    Uninitialized,
    Undefined,
    Null,
    Bool(bool),
    Int(i32),
    String(String),
    Other(Other),
    Object(Object),
}

/// A primitive that has no representation of its own here: a non-integer number, a
/// symbol, a big integer, or a string that is not well-formed Unicode.
#[derive(Debug)]
pub struct Other {
    pub kind: Type,
    /// What the conversion to a string gives.
    pub text: Result<String, Failure>,
    /// What the conversion to a 32-bit integer gives, where there is one.
    pub integer: Option<i32>,
}

/// An object of the script. `id` is what the engine tells objects apart by.
#[derive(Debug)]
pub struct Object {
    pub id: u64,
    pub body: Rc<Body>,
}

/// What an object holds.
#[derive(Debug)]
pub struct Body {
    pub class: Class,
    /// The named properties, inherited ones included, each name once. Those that are listed
    /// stand in enumeration order. The elements of an array stand among them too, as listed
    /// properties whose names are their indices.
    pub properties: Vec<Property>,
    /// The elements of an array, by index.
    pub items: Vec<Result<Value, Failure>>,
    /// The stack frames that were captured with an error.
    pub trace: Trace,
}

/// A named property of an object.
#[derive(Debug)]
pub struct Property {
    pub name: String,
    /// What reading the property gives.
    pub read: Result<Value, Failure>,
    /// What the conversion to a string gives, where the property reads as an object.
    pub text: Result<String, Failure>,
    /// What writing the property does.
    pub write: Write,
    /// Whether the property is the object's own and is enumerable.
    pub listed: bool,
}

/// What writing a property does.
#[derive(Debug)]
pub enum Write {
    /// The new value replaces the old one: the property is a writable one of the object's
    /// own.
    Replace,
    /// The object gets a property of its own, which is listed and hides the one that it
    /// inherits: the property is a writable one that is inherited.
    Add,
    /// Nothing.
    Ignore,
    /// A setter runs and leaves the object like this.
    Run(Rc<Aftermath>),
    /// The write fails.
    Fail(Failure),
}

/// What an object holds after a setter ran on it. Its class does not change.
#[derive(Debug)]
pub struct Aftermath {
    pub properties: Vec<Property>,
    pub items: Vec<Result<Value, Failure>>,
    pub trace: Trace,
}

/// What the engine answers when it is asked for the captured frames of an error.
#[derive(Debug)]
pub enum Trace {
    /// A value that is no array: nothing was captured.
    Absent,
    /// An array of frame objects, the innermost frame first.
    Captured(Rc<Vec<Result<Value, Failure>>>),
    /// The request fails.
    Fails(Failure),
}

/// Calls `std::rc::Rc::clone`, which gives another pointer to the same allocation: it
/// points to the same value.
#[verifier::external_body]
fn share<T>(pointer: &Rc<T>) -> (shared: Rc<T>)
    ensures
        shared == *pointer,
{
    Rc::clone(pointer)
}

impl Clone for Failure {
    fn clone(&self) -> (copy: Self)
        ensures
            copy == *self,
    {
        match self {
            Failure::Thrown(value) => Failure::Thrown(share(value)),
            Failure::Utf8 => Failure::Utf8,
            Failure::FromJs { from, to } => Failure::FromJs { from: *from, to: *to },
        }
    }
}

/// A copy of the outcome of a conversion to a string.
pub(crate) fn copy_text(text: &Result<String, Failure>) -> (copy: Result<String, Failure>)
    ensures
        copy == *text,
{
    match text {
        Ok(text) => Ok(text.clone()),
        Err(failure) => Err(failure.clone()),
    }
}

impl Clone for Other {
    fn clone(&self) -> (copy: Self)
        ensures
            copy == *self,
    {
        Other { kind: self.kind, text: copy_text(&self.text), integer: self.integer }
    }
}

impl Clone for Object {
    fn clone(&self) -> (copy: Self)
        ensures
            copy == *self,
    {
        Object { id: self.id, body: share(&self.body) }
    }
}

/// Objects are equal where they are the same object.
impl PartialEq for Object {
    fn eq(&self, other: &Self) -> (equal: bool) {
        self.id == other.id
    }
}

impl vstd::std_specs::cmp::PartialEqSpecImpl for Object {
    open spec fn obeys_eq_spec() -> bool {
        true
    }

    open spec fn eq_spec(&self, other: &Self) -> bool {
        self.id == other.id
    }
}

impl Eq for Object {

}

/// Calls `core::hash::Hash::hash` on the identity of an object. What that does to the
/// hasher is left unsaid.
#[verifier::external_body]
fn hash_id<H: Hasher>(id: u64, state: &mut H) {
    id.hash(state)
}

impl Hash for Object {
    fn hash<H: Hasher>(&self, state: &mut H) {
        hash_id(self.id, state)
    }
}

impl Clone for Value {
    fn clone(&self) -> (copy: Self)
        ensures
            copy == *self,
    {
        match self {
            Value::Uninitialized => Value::Uninitialized,
            Value::Undefined => Value::Undefined,
            Value::Null => Value::Null,
            Value::Bool(flag) => Value::Bool(*flag),
            Value::Int(number) => Value::Int(*number),
            Value::String(text) => Value::String(text.clone()),
            Value::Other(other) => Value::Other(other.clone()),
            Value::Object(object) => Value::Object(object.clone()),
        }
    }
}

impl Clone for Trace {
    fn clone(&self) -> (copy: Self)
        ensures
            copy == *self,
    {
        match self {
            Trace::Absent => Trace::Absent,
            Trace::Captured(entries) => Trace::Captured(share(entries)),
            Trace::Fails(failure) => Trace::Fails(failure.clone()),
        }
    }
}

impl Clone for Write {
    fn clone(&self) -> (copy: Self)
        ensures
            copy == *self,
    {
        match self {
            Write::Replace => Write::Replace,
            Write::Add => Write::Add,
            Write::Ignore => Write::Ignore,
            Write::Run(aftermath) => Write::Run(share(aftermath)),
            Write::Fail(failure) => Write::Fail(failure.clone()),
        }
    }
}

impl Clone for Property {
    fn clone(&self) -> (copy: Self)
        ensures
            copy == *self,
    {
        Property {
            name: self.name.clone(),
            read: copy_reading(&self.read),
            text: copy_text(&self.text),
            write: self.write.clone(),
            listed: self.listed,
        }
    }
}

/// A copy of a list of properties.
pub(crate) fn copy_properties(properties: &Vec<Property>) -> (copy: Vec<Property>)
    ensures
        copy@ == properties@,
{
    let mut copy: Vec<Property> = Vec::new();
    let mut i: usize = 0;
    while i < properties.len()
        invariant
            i <= properties.len(),
            copy@ =~= properties@.take(i as int),
        decreases properties.len() - i,
    {
        copy.push(properties[i].clone());
        i = i + 1;
    }
    copy
}

/// A copy of what a read gives.
pub(crate) fn copy_reading(reading: &Result<Value, Failure>) -> (copy: Result<Value, Failure>)
    ensures
        copy == *reading,
{
    match reading {
        Ok(value) => Ok(value.clone()),
        Err(failure) => Err(failure.clone()),
    }
}

/// A copy of a list of readings.
pub(crate) fn copy_readings(readings: &Vec<Result<Value, Failure>>) -> (copy: Vec<
    Result<Value, Failure>,
>)
    ensures
        copy@ == readings@,
{
    let mut copy: Vec<Result<Value, Failure>> = Vec::new();
    let mut i: usize = 0;
    while i < readings.len()
        invariant
            i <= readings.len(),
            copy@ =~= readings@.take(i as int),
        decreases readings.len() - i,
    {
        copy.push(copy_reading(&readings[i]));
        i = i + 1;
    }
    copy
}

} // verus!
