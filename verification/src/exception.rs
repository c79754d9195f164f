//! Errors of a script.
use crate::convert;
use crate::ctx;
use crate::ctx::{Ctx, Error};
use crate::frame;
use crate::frame::{frame_limit, parse_frames, Frame};
use crate::locals;
use crate::locals::Locals;
use crate::object;
use crate::text;
use crate::text::c_message;
use crate::value::{Class, ErrorKind, Failure, Object, Value, Write};
use std::hash::{Hash, Hasher};
use vstd::prelude::*;
use vstd::utf8::*;

verus! {

/// An error object of a script.
///
/// It is an error when the script gets hold of it, but it is not thrown by itself.
pub struct Exception(pub(crate) Object);

impl View for Exception {
    type V = Object;

    closed spec fn view(&self) -> Object {
        self.0
    }
}

impl Clone for Exception {
    fn clone(&self) -> (copy: Self)
        ensures
            copy@ == self@,
    {
        proof {
            use_type_invariant(self);
        }
        Exception(self.0.clone())
    }
}

/// Exceptions are equal where they are the same object.
impl PartialEq for Exception {
    fn eq(&self, other: &Self) -> (equal: bool) {
        self.0 == other.0
    }
}

impl vstd::std_specs::cmp::PartialEqSpecImpl for Exception {
    open spec fn obeys_eq_spec() -> bool {
        true
    }

    open spec fn eq_spec(&self, other: &Self) -> bool {
        self@.id == other@.id
    }
}

impl Eq for Exception {

}

impl Hash for Exception {
    fn hash<H: Hasher>(&self, state: &mut H) {
        self.0.hash(state)
    }
}

/// The text that a property reads as. One that cannot be read counts as missing.
pub open spec fn read_text(object: Object, name: Seq<char>) -> Option<Seq<char>> {
    match object::text_at(object, name) {
        Ok(text) => text,
        Err(_) => None,
    }
}

/// The context after a property was read as a text in it.
pub open spec fn after_read(before: Ctx, object: Object, name: Seq<char>) -> Ctx {
    match object::text_at(object, name) {
        Ok(_) => before,
        Err(failure) => ctx::after_failure(before, failure),
    }
}

/// What setting the message of a new error does.
pub open spec fn message_write(context: Ctx) -> Write {
    object::write_in(context.blank.properties@, "message"@)
}

/// `error` is the next error object of the context, after its message was set.
pub open spec fn is_message_error(context: Ctx, error: Object, message: Seq<char>) -> bool {
    &&& ctx::is_next_error(context, error, ErrorKind::Generic)
    &&& object::is_text_written(
        context.blank.properties@,
        Seq::empty(),
        context.blank.trace,
        *error.body,
        "message"@,
        message,
    )
}

/// The context, and the error, after a new error with a message was made and thrown: what
/// is pending is that error, or what kept it from being made.
pub open spec fn is_message_throw(
    before: Ctx,
    after: Ctx,
    error: Error,
    message: Seq<char>,
) -> bool {
    if !ctx::makes_objects(before) {
        &&& error == Error::Exception
        &&& after == ctx::after_refusal(before)
    } else {
        match message_write(before) {
            Write::Fail(failure) => {
                &&& error == ctx::error_of(failure)
                &&& after == ctx::after_failure(ctx::after_object(before), failure)
            },
            _ => {
                &&& error == Error::Exception
                &&& after.pending matches Some(Value::Object(object)) && is_message_error(
                    before,
                    object,
                    message,
                )
                &&& after == (Ctx { pending: after.pending, ..ctx::after_object(before) })
            },
        }
    }
}

impl Exception {
    #[verifier::type_invariant]
    closed spec fn well_formed(self) -> bool {
        self.0.is_error()
    }

    /// Turns the exception into the underlying object.
    pub fn into_object(self) -> (object: Object)
        ensures
            object == self@,
            object.is_error(),
    {
        proof {
            use_type_invariant(&self);
        }
        self.0
    }

    /// The underlying object.
    pub fn as_object(&self) -> (object: &Object)
        ensures
            *object == self@,
            object.is_error(),
    {
        proof {
            use_type_invariant(self);
        }
        &self.0
    }

    /// Makes an exception of an object that is an error.
    pub fn from_object(object: Object) -> (exception: Option<Self>)
        ensures
            match exception {
                Some(exception) => object.is_error() && exception@ == object,
                None => !object.is_error(),
            },
    {
        if object.is_error() {
            Some(Exception(object))
        } else {
            None
        }
    }

    /// Makes a new exception with a message.
    pub fn from_message(ctx: &mut Ctx, message: &str) -> (exception: Result<Self, Error>)
        ensures
            match exception {
                Ok(exception) => {
                    &&& ctx::makes_objects(*old(ctx))
                    &&& !(message_write(*old(ctx)) is Fail)
                    &&& is_message_error(*old(ctx), exception@, message@)
                    &&& *final(ctx) == ctx::after_object(*old(ctx))
                },
                Err(error) => if ctx::makes_objects(*old(ctx)) {
                    &&& message_write(*old(ctx)) matches Write::Fail(failure)
                    &&& error == ctx::error_of(failure)
                    &&& *final(ctx) == ctx::after_failure(ctx::after_object(*old(ctx)), failure)
                } else {
                    &&& error == Error::Exception
                    &&& *final(ctx) == ctx::after_refusal(*old(ctx))
                },
            },
    {
        let blank: Object = ctx.new_error()?;
        assert(blank.body.items@ =~= Seq::empty());
        match blank.set_text("message", message) {
            Ok(object) => Ok(Exception(object)),
            Err(failure) => Err(ctx.raise(failure)),
        }
    }

    /// The message of the error: what `error.message` is in the script.
    pub fn message(&self, ctx: &mut Ctx) -> (text: Option<String>)
        ensures
            convert::text_view(text) == read_text(self@, "message"@),
            *final(ctx) == after_read(*old(ctx), self@, "message"@),
    {
        match self.0.get_text("message") {
            Ok(text) => text,
            Err(failure) => {
                ctx.raise(failure);
                None
            },
        }
    }

    /// The stack of the error: what `error.stack` is in the script.
    pub fn stack(&self, ctx: &mut Ctx) -> (text: Option<String>)
        ensures
            convert::text_view(text) == read_text(self@, "stack"@),
            *final(ctx) == after_read(*old(ctx), self@, "stack"@),
    {
        match self.0.get_text("stack") {
            Ok(text) => text,
            Err(failure) => {
                ctx.raise(failure);
                None
            },
        }
    }

    /// The stack frames that were captured with the error, the innermost first: at most
    /// `depth` of them, or all.
    ///
    /// There are none where capture was not enabled, or where no script code was running.
    pub fn frames(&self, ctx: &mut Ctx, depth: Option<usize>) -> (frames: Result<
        Vec<Frame>,
        Error,
    >)
        ensures
            match frame::trace_frames(self@.body.trace, frame::limit_of(depth)) {
                Ok(views) => {
                    &&& frames matches Ok(frames) && frame::frame_views(frames@) == views
                    &&& *final(ctx) == *old(ctx)
                },
                Err(failure) => {
                    &&& frames matches Err(error) && error == ctx::error_of(failure)
                    &&& *final(ctx) == ctx::after_failure(*old(ctx), failure)
                },
            },
    {
        let frames: Result<Vec<Frame>, Failure> = match self.0.error_frames(frame_limit(depth)) {
            Ok(answer) => parse_frames(answer),
            Err(failure) => Err(failure),
        };
        match frames {
            Ok(frames) => Ok(frames),
            Err(failure) => Err(ctx.raise(failure)),
        }
    }

    /// The arguments and local variables of the innermost frame, or none where no frame
    /// was captured.
    pub fn locals(&self, ctx: &mut Ctx) -> (locals: Result<Locals, Error>)
        ensures
            match frame::trace_frames(self@.body.trace, 1) {
                Ok(views) => {
                    &&& locals matches Ok(locals) && locals@ == (if views.len() > 0 {
                        views[0].locals
                    } else {
                        locals::no_locals()
                    })
                    &&& *final(ctx) == *old(ctx)
                },
                Err(failure) => {
                    &&& locals matches Err(error) && error == ctx::error_of(failure)
                    &&& *final(ctx) == ctx::after_failure(*old(ctx), failure)
                },
            },
    {
        let mut frames: Vec<Frame> = self.frames(ctx, Some(1))?;
        if frames.len() > 0 {
            let innermost: Frame = frames.remove(0);
            Ok(innermost.locals)
        } else {
            Ok(Locals::new())
        }
    }

    /// Sets the exception as the pending one.
    pub fn throw(self, ctx: &mut Ctx) -> (error: Error)
        ensures
            error == Error::Exception,
            *final(ctx) == ctx::after_throw(*old(ctx), Value::Object(self@)),
    {
        ctx.throw(Value::Object(self.0))
    }

    /// Throws a new generic error.
    pub fn throw_message(ctx: &mut Ctx, message: &str) -> (error: Error)
        ensures
            is_message_throw(*old(ctx), *final(ctx), error, message@),
    {
        match Exception::from_message(ctx, message) {
            Ok(exception) => exception.throw(ctx),
            Err(error) => error,
        }
    }

    fn throw_kind(ctx: &mut Ctx, kind: ErrorKind, message: &str) -> (error: Error)
        ensures
            error == Error::Exception,
            ctx::is_native_throw(*old(ctx), *final(ctx), kind, text::native_text(message@)),
    {
        broadcast use group_utf8_lib;

        let buffer: [u8; 256] = c_message(message);
        ctx.throw_native(kind, buffer.as_slice())
    }

    /// Throws a new syntax error.
    pub fn throw_syntax(ctx: &mut Ctx, message: &str) -> (error: Error)
        ensures
            error == Error::Exception,
            ctx::is_native_throw(
                *old(ctx),
                *final(ctx),
                ErrorKind::Syntax,
                text::native_text(message@),
            ),
    {
        Exception::throw_kind(ctx, ErrorKind::Syntax, message)
    }

    /// Throws a new type error.
    pub fn throw_type(ctx: &mut Ctx, message: &str) -> (error: Error)
        ensures
            error == Error::Exception,
            ctx::is_native_throw(
                *old(ctx),
                *final(ctx),
                ErrorKind::Type,
                text::native_text(message@),
            ),
    {
        Exception::throw_kind(ctx, ErrorKind::Type, message)
    }

    /// Throws a new reference error.
    pub fn throw_reference(ctx: &mut Ctx, message: &str) -> (error: Error)
        ensures
            error == Error::Exception,
            ctx::is_native_throw(
                *old(ctx),
                *final(ctx),
                ErrorKind::Reference,
                text::native_text(message@),
            ),
    {
        Exception::throw_kind(ctx, ErrorKind::Reference, message)
    }

    /// Throws a new range error.
    pub fn throw_range(ctx: &mut Ctx, message: &str) -> (error: Error)
        ensures
            error == Error::Exception,
            ctx::is_native_throw(
                *old(ctx),
                *final(ctx),
                ErrorKind::Range,
                text::native_text(message@),
            ),
    {
        Exception::throw_kind(ctx, ErrorKind::Range, message)
    }

    /// Throws a new internal error.
    pub fn throw_internal(ctx: &mut Ctx, message: &str) -> (error: Error)
        ensures
            error == Error::Exception,
            ctx::is_native_throw(
                *old(ctx),
                *final(ctx),
                ErrorKind::Internal,
                text::native_text(message@),
            ),
    {
        Exception::throw_kind(ctx, ErrorKind::Internal, message)
    }
}

/// A new error has the message that it was made with, unless the write to it is up to a
/// setter of the script or ignored; its other properties are those that any new error has.
pub proof fn law_message_reads_back(
    context: Ctx,
    error: Object,
    message: Seq<char>,
    other: Seq<char>,
)
    requires
        is_message_error(context, error, message),
        message_write(context) is Replace || message_write(context) is Add,
    ensures
        error.is_error(),
        read_text(error, "message"@) == Some(message),
        other != "message"@ ==> object::lookup(error.body.properties@, other) == object::lookup(
            context.blank.properties@,
            other,
        ),
{
    let before = context.blank.properties@;
    let after = error.body.properties@;
    if message_write(context) is Replace {
        object::law_put_text_reads_back(
            before,
            after,
            "message"@,
            message,
            before[object::position(before, "message"@) as int].listed,
            other,
        );
    } else {
        object::law_added_text_reads_back(before, after, "message"@, message, other);
    }
}

/// A new error whose message a setter of the script takes has the properties that the
/// setter left.
pub proof fn law_setter_decides(context: Ctx, error: Object, message: Seq<char>, name: Seq<char>)
    requires
        is_message_error(context, error, message),
        message_write(context) is Run,
    ensures
        error.is_error(),
        object::lookup(error.body.properties@, name) == object::lookup(
            message_write(context)->Run_0.properties@,
            name,
        ),
{
}

/// What is pending after a throw of a syntax, type, reference, range or internal error is
/// an error of that kind, with what the engine takes over of the message.
pub proof fn law_native_error_has_message(
    before: Ctx,
    after: Ctx,
    kind: ErrorKind,
    message: Seq<char>,
)
    requires
        ctx::makes_objects(before),
        ctx::is_native_throw(before, after, kind, text::native_text(message)),
    ensures
        after.pending matches Some(Value::Object(error)) && {
            &&& error.body.class == Class::Error(kind)
            &&& read_text(error, "message"@) == Some(text::native_text(message))
        },
{
    if let Some(Value::Object(error)) = after.pending {
        object::law_put_text_reads_back(
            before.native.properties@,
            error.body.properties@,
            "message"@,
            text::native_text(message),
            false,
            "message"@,
        );
    }
}

/// Throwing a message is making an exception of it and throwing that.
pub proof fn law_throw_message_makes_and_throws(before: Ctx, object: Object, message: Seq<char>)
    requires
        ctx::makes_objects(before),
        !(message_write(before) is Fail),
        is_message_error(before, object, message),
    ensures
        is_message_throw(
            before,
            ctx::after_throw(ctx::after_object(before), Value::Object(object)),
            Error::Exception,
            message,
        ),
{
}

/// A message that was thrown is the message of the error that is then pending, unless the
/// write to it fails, is up to a setter of the script or is ignored.
pub proof fn law_thrown_message_reads_back(
    before: Ctx,
    after: Ctx,
    error: Error,
    message: Seq<char>,
)
    requires
        ctx::makes_objects(before),
        message_write(before) is Replace || message_write(before) is Add,
        is_message_throw(before, after, error, message),
    ensures
        error == Error::Exception,
        after.pending matches Some(Value::Object(object)) && object.is_error() && read_text(
            object,
            "message"@,
        ) == Some(message),
{
    if let Some(Value::Object(object)) = after.pending {
        law_message_reads_back(before, object, message, "message"@);
    }
}

/// The object of an exception makes the same exception again.
pub proof fn law_object_round_trip(exception: Exception, object: Object, again: Option<Exception>)
    requires
        call_ensures(Exception::into_object, (exception,), object),
        call_ensures(Exception::from_object, (object,), again),
    ensures
        again matches Some(again) && again@ == exception@,
{
}

} // verus!
