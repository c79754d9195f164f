//! The context that a script runs in, as far as errors go: the exception that is pending
//! in it, and the error objects that its engine makes.
use crate::object;
use crate::object::put_text;
use crate::text;
use crate::text::c_text;
use crate::value::{
    copy_properties, Body, Class, ErrorKind, Failure, Object, Property, Trace, Type, Value,
};
use std::rc::Rc;
use vstd::prelude::*;
use vstd::utf8::*;

verus! {

/// Why an operation failed.
#[derive(Debug, Clone, Copy, PartialEq, Eq, Structural, Hash)]
pub enum Error {
    /// The script threw. What it threw is pending in the context.
    Exception,
    /// A text is not well-formed Unicode.
    Utf8,
    /// A value of type `from` stands where one of type `to` was asked for.
    FromJs { from: Type, to: Type },
}

/// What the engine puts on the error objects that it makes.
#[derive(Debug)]
pub struct Mould {
    /// The properties that such an object has, inherited ones included.
    pub properties: Vec<Property>,
    /// The stack frames that are captured with it.
    pub trace: Trace,
}

/// The context that a script runs in.
#[derive(Debug)]
pub struct Ctx {
    /// The value that was thrown last and has not been caught.
    pub pending: Option<Value>,
    /// Set while the engine cannot make objects: what it leaves pending when asked to.
    pub refusal: Option<Value>,
    /// What error objects without a message are made of.
    pub blank: Mould,
    /// What errors that the engine itself throws are made of.
    pub native: Mould,
    /// The identity of the next object.
    pub serial: u64,
}

/// Whether the engine makes an object when asked to.
pub open spec fn makes_objects(ctx: Ctx) -> bool {
    ctx.refusal is None && ctx.serial < u64::MAX
}

/// The context after the engine could not make an object: the value that is set for that
/// case is pending, or `null` where none is set and the identities ran out.
pub open spec fn after_refusal(ctx: Ctx) -> Ctx {
    Ctx {
        pending: Some(
            match ctx.refusal {
                Some(value) => value,
                None => Value::Null,
            },
        ),
        ..ctx
    }
}

/// The context after an object was made in it.
pub open spec fn after_object(ctx: Ctx) -> Ctx {
    Ctx { serial: (ctx.serial + 1) as u64, ..ctx }
}

/// The context with `value` pending.
pub open spec fn after_throw(ctx: Ctx, value: Value) -> Ctx {
    Ctx { pending: Some(value), ..ctx }
}

/// The context after a failed read was reported in it.
pub open spec fn after_failure(ctx: Ctx, failure: Failure) -> Ctx {
    match failure {
        Failure::Thrown(value) => after_throw(ctx, *value),
        _ => ctx,
    }
}

/// The error that reports a failed read.
pub open spec fn error_of(failure: Failure) -> Error {
    match failure {
        Failure::Thrown(_) => Error::Exception,
        Failure::Utf8 => Error::Utf8,
        Failure::FromJs { from, to } => Error::FromJs { from, to },
    }
}

/// `object` is the next error object of the context.
pub open spec fn is_next_error(ctx: Ctx, object: Object, kind: ErrorKind) -> bool {
    &&& object.id == ctx.serial
    &&& object.body.class == Class::Error(kind)
}

/// `object` is the next error object of the context, with no message.
pub open spec fn is_blank_error(ctx: Ctx, object: Object) -> bool {
    &&& is_next_error(ctx, object, ErrorKind::Generic)
    &&& object.body.properties@ == ctx.blank.properties@
    &&& object.body.items@.len() == 0
    &&& object.body.trace == ctx.blank.trace
}

/// `object` is the next error object of the context, as the engine throws it with a
/// message.
pub open spec fn is_native_error(
    ctx: Ctx,
    object: Object,
    kind: ErrorKind,
    text: Seq<char>,
) -> bool {
    &&& is_next_error(ctx, object, kind)
    &&& object::is_text_put(
        ctx.native.properties@,
        object.body.properties@,
        "message"@,
        text,
        false,
    )
    &&& object.body.items@.len() == 0
    &&& object.body.trace == ctx.native.trace
}

/// The context after the engine was told to throw an error with a message.
pub open spec fn is_native_throw(
    before: Ctx,
    after: Ctx,
    kind: ErrorKind,
    text: Seq<char>,
) -> bool {
    if makes_objects(before) {
        &&& after.pending matches Some(Value::Object(object)) && is_native_error(
            before,
            object,
            kind,
            text,
        )
        &&& after == (Ctx { pending: after.pending, ..after_object(before) })
    } else {
        after == after_refusal(before)
    }
}

impl Ctx {
    /// A context in which nothing is pending, whose error objects start with no property
    /// and no captured frame.
    pub fn new() -> (ctx: Self)
        ensures
            ctx.pending is None,
            ctx.refusal is None,
            ctx.blank.properties@.len() == 0,
            ctx.blank.trace is Absent,
            ctx.native.properties@.len() == 0,
            ctx.native.trace is Absent,
            ctx.serial == 0,
    {
        Ctx {
            pending: None,
            refusal: None,
            blank: Mould { properties: Vec::new(), trace: Trace::Absent },
            native: Mould { properties: Vec::new(), trace: Trace::Absent },
            serial: 0,
        }
    }

    /// Sets the value as the pending exception, in place of any that is pending.
    pub fn throw(&mut self, value: Value) -> (error: Error)
        ensures
            error == Error::Exception,
            *final(self) == after_throw(*old(self), value),
    {
        self.pending = Some(value);
        Error::Exception
    }

    /// Takes the pending exception.
    pub fn catch(&mut self) -> (value: Option<Value>)
        ensures
            value == old(self).pending,
            *final(self) == (Ctx { pending: None, ..*old(self) }),
    {
        self.pending.take()
    }

    /// Reports a failed read: a thrown value becomes pending.
    pub fn raise(&mut self, failure: Failure) -> (error: Error)
        ensures
            error == error_of(failure),
            *final(self) == after_failure(*old(self), failure),
    {
        match failure {
            Failure::Thrown(value) => {
                let thrown: Value = (*value).clone();
                self.throw(thrown)
            },
            Failure::Utf8 => Error::Utf8,
            Failure::FromJs { from, to } => Error::FromJs { from, to },
        }
    }

    fn refuse(&mut self) -> (error: Error)
        requires
            !makes_objects(*old(self)),
        ensures
            error == Error::Exception,
            *final(self) == after_refusal(*old(self)),
    {
        let value: Value = match &self.refusal {
            Some(value) => value.clone(),
            None => Value::Null,
        };
        self.throw(value)
    }

    /// Makes an error object without a message.
    pub fn new_error(&mut self) -> (object: Result<Object, Error>)
        ensures
            match object {
                Ok(object) => {
                    &&& makes_objects(*old(self))
                    &&& is_blank_error(*old(self), object)
                    &&& *final(self) == after_object(*old(self))
                },
                Err(error) => {
                    &&& !makes_objects(*old(self))
                    &&& error == Error::Exception
                    &&& *final(self) == after_refusal(*old(self))
                },
            },
    {
        if self.refusal.is_some() || self.serial == u64::MAX {
            return Err(self.refuse());
        }
        let object: Object = Object {
            id: self.serial,
            body: Rc::new(
                Body {
                    class: Class::Error(ErrorKind::Generic),
                    properties: copy_properties(&self.blank.properties),
                    items: Vec::new(),
                    trace: self.blank.trace.clone(),
                },
            ),
        };
        self.serial = self.serial + 1;
        Ok(object)
    }

    /// Makes and throws an error of that kind whose message is the C string in `buffer`.
    pub fn throw_native(&mut self, kind: ErrorKind, buffer: &[u8]) -> (error: Error)
        requires
            valid_utf8(text::c_bytes(buffer@)),
        ensures
            error == Error::Exception,
            is_native_throw(
                *old(self),
                *final(self),
                kind,
                decode_utf8(text::c_bytes(buffer@)),
            ),
    {
        if self.refusal.is_some() || self.serial == u64::MAX {
            return self.refuse();
        }
        let message: &str = c_text(buffer).unwrap();
        let object: Object = Object {
            id: self.serial,
            body: Rc::new(
                Body {
                    class: Class::Error(kind),
                    properties: put_text(&self.native.properties, "message", message, false),
                    items: Vec::new(),
                    trace: self.native.trace.clone(),
                },
            ),
        };
        self.serial = self.serial + 1;
        self.throw(Value::Object(object))
    }
}

/// Of two values that are thrown in turn, the one thrown last is pending.
pub proof fn law_last_throw_is_pending(ctx: Ctx, first: Value, last: Value)
    ensures
        after_throw(after_throw(ctx, first), last) == after_throw(ctx, last),
        after_throw(ctx, last).pending == Some(last),
{
}

/// Error objects that are made one after the other are different objects.
pub proof fn law_new_errors_differ(
    ctx: Ctx,
    first: Object,
    first_kind: ErrorKind,
    second: Object,
    second_kind: ErrorKind,
)
    requires
        makes_objects(ctx),
        is_next_error(ctx, first, first_kind),
        is_next_error(after_object(ctx), second, second_kind),
    ensures
        first.id != second.id,
{
}

} // verus!
