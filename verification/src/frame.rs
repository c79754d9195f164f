//! The stack frames that the engine captures with an error.
use crate::convert;
use crate::locals;
use crate::locals::Locals;
use crate::object;
use crate::value::{Failure, Object, Property, Trace, Value};
use vstd::prelude::*;
use vstd::slice::slice_subrange;

verus! {

/// One stack frame, captured at the point where an error was thrown.
#[derive(Debug)]
pub struct Frame {
    /// The name of the function. `None` for anonymous functions.
    pub function_name: Option<String>,
    /// The file that the function was defined in. `None` for native frames.
    pub file_name: Option<String>,
    /// The source line, counted from one. `None` if unavailable (e.g. native frame).
    pub line_number: Option<u32>,
    /// The source column, counted from one. `None` if unavailable.
    pub column_number: Option<u32>,
    /// True for frames that are not script code.
    pub native: bool,
    /// The arguments and local variables of the frame at the time of the throw. The engine
    /// records none for native frames.
    pub locals: Locals,
}

/// What a [`Frame`] says.
#[verifier::ext_equal]
pub struct FrameView {
    pub function_name: Option<Seq<char>>,
    pub file_name: Option<Seq<char>>,
    pub line_number: Option<u32>,
    pub column_number: Option<u32>,
    pub native: bool,
    pub locals: Map<Seq<char>, Value>,
}

impl View for Frame {
    type V = FrameView;

    open spec fn view(&self) -> FrameView {
        FrameView {
            function_name: convert::text_view(self.function_name),
            file_name: convert::text_view(self.file_name),
            line_number: self.line_number,
            column_number: self.column_number,
            native: self.native,
            locals: self.locals@,
        }
    }
}

impl Clone for Frame {
    fn clone(&self) -> (copy: Self)
        ensures
            copy@ == self@,
    {
        Frame {
            function_name: self.function_name.clone(),
            file_name: self.file_name.clone(),
            line_number: self.line_number,
            column_number: self.column_number,
            native: self.native,
            locals: self.locals.clone(),
        }
    }
}

/// A source position as the engine reports it: a negative one means that there is none.
pub open spec fn position(number: Option<i32>) -> Option<u32> {
    match number {
        Some(number) if number >= 0 => Some(number as u32),
        _ => None,
    }
}

/// The variables that the listed properties of an object describe. Where a name is
/// listed twice the later one counts; the first one that cannot be read fails the rest.
pub open spec fn locals_of(properties: Seq<Property>) -> Result<Map<Seq<char>, Value>, Failure>
    decreases properties.len(),
{
    if properties.len() == 0 {
        Ok(locals::no_locals())
    } else {
        match locals_of(properties.drop_last()) {
            Err(failure) => Err(failure),
            Ok(locals) => if !properties.last().listed {
                Ok(locals)
            } else {
                match properties.last().read {
                    Err(failure) => Err(failure),
                    Ok(value) => Ok(locals.insert(properties.last().name@, value)),
                }
            },
        }
    }
}

/// The variables of a frame object.
pub open spec fn locals_at(object: Object) -> Result<Map<Seq<char>, Value>, Failure> {
    match object::object_at(object, "locals"@) {
        Err(failure) => Err(failure),
        Ok(None) => Ok(locals::no_locals()),
        Ok(Some(locals)) => locals_of(locals.body.properties@),
    }
}

/// The frame that a frame object describes. Its properties are read in turn, and the
/// first one that cannot be read is the failure.
pub open spec fn frame_of(object: Object) -> Result<FrameView, Failure> {
    match (
        object::text_at(object, "functionName"@),
        object::text_at(object, "fileName"@),
        object::int_at(object, "lineNumber"@),
        object::int_at(object, "columnNumber"@),
        object::bool_at(object, "native"@),
        locals_at(object),
    ) {
        (
            Ok(function_name),
            Ok(file_name),
            Ok(line),
            Ok(column),
            Ok(native),
            Ok(locals),
        ) => Ok(
            FrameView {
                function_name,
                file_name,
                line_number: position(line),
                column_number: position(column),
                native: native == Some(true),
                locals,
            },
        ),
        (Err(failure), _, _, _, _, _) => Err(failure),
        (_, Err(failure), _, _, _, _) => Err(failure),
        (_, _, Err(failure), _, _, _) => Err(failure),
        (_, _, _, Err(failure), _, _) => Err(failure),
        (_, _, _, _, Err(failure), _) => Err(failure),
        (_, _, _, _, _, Err(failure)) => Err(failure),
    }
}

/// What a frame that was asked for turned out to be.
pub open spec fn frame_outcome(frame: Result<Frame, Failure>) -> Result<FrameView, Failure> {
    match frame {
        Ok(frame) => Ok(frame@),
        Err(failure) => Err(failure),
    }
}

/// A source position as the engine reports it: a negative one means that there is none.
fn to_position(number: Option<i32>) -> (place: Option<u32>)
    ensures
        place == position(number),
{
    match number {
        Some(number) => if number >= 0 {
            Some(number as u32)
        } else {
            None
        },
        None => None,
    }
}

/// The variables that an object lists.
fn parse_locals(object: &Object) -> (locals: Result<Locals, Failure>)
    ensures
        match locals {
            Ok(locals) => locals_of(object.body.properties@) == Ok::<_, Failure>(locals@),
            Err(failure) => locals_of(object.body.properties@) == Err::<
                Map<Seq<char>, Value>,
                _,
            >(failure),
        },
{
    let ghost all = object.body.properties@;
    let mut locals: Locals = Locals::new();
    let mut i: usize = 0;
    while i < object.body.properties.len()
        invariant
            i <= all.len(),
            all == object.body.properties@,
            locals_of(all.take(i as int)) == Ok::<_, Failure>(locals@),
        decreases all.len() - i,
    {
        let property: &Property = &object.body.properties[i];
        assert(all.take(i + 1).drop_last() =~= all.take(i as int));
        if property.listed {
            match &property.read {
                Ok(value) => {
                    locals.insert(property.name.clone(), value.clone());
                },
                Err(failure) => {
                    proof {
                        lemma_locals_fail(all, i + 1);
                    }
                    return Err(failure.clone());
                },
            }
        }
        i = i + 1;
    }
    assert(all.take(i as int) =~= all);
    Ok(locals)
}

/// Once a property cannot be read, what follows does not matter.
proof fn lemma_locals_fail(properties: Seq<Property>, len: int)
    requires
        0 <= len <= properties.len(),
        locals_of(properties.take(len)) is Err,
    ensures
        locals_of(properties) == locals_of(properties.take(len)),
    decreases properties.len(),
{
    if len == properties.len() {
        assert(properties.take(len) =~= properties);
    } else {
        let front = properties.drop_last();
        assert(front.take(len) =~= properties.take(len));
        lemma_locals_fail(front, len);
    }
}

/// Reads the frame that a frame object describes.
pub fn parse_frame(object: &Object) -> (frame: Result<Frame, Failure>)
    ensures
        frame_outcome(frame) == frame_of(*object),
{
    let function_name: Option<String> = object.get_text("functionName")?;
    let file_name: Option<String> = object.get_text("fileName")?;
    let line_number: Option<u32> = to_position(object.get_int("lineNumber")?);
    let column_number: Option<u32> = to_position(object.get_int("columnNumber")?);
    let native: bool = match object.get_bool("native")? {
        Some(native) => native,
        None => false,
    };
    let locals: Locals = match object.get_object("locals")? {
        Some(locals) => parse_locals(&locals)?,
        None => Locals::new(),
    };
    Ok(Frame { function_name, file_name, line_number, column_number, native, locals })
}

/// The frame that an element of the engine's array of frames stands for.
pub open spec fn entry_frame(entry: Result<Value, Failure>) -> Result<FrameView, Failure> {
    match entry {
        Err(failure) => Err(failure),
        Ok(value) => match convert::object_of(value) {
            Err(failure) => Err(failure),
            Ok(object) => frame_of(object),
        },
    }
}

/// The frames that the elements of the engine's array stand for, in order, or the
/// failure of the first element that stands for none.
pub open spec fn frames_of(entries: Seq<Result<Value, Failure>>) -> Result<Seq<FrameView>, Failure>
    decreases entries.len(),
{
    if entries.len() == 0 {
        Ok(Seq::empty())
    } else {
        match frames_of(entries.drop_last()) {
            Err(failure) => Err(failure),
            Ok(frames) => match entry_frame(entries.last()) {
                Err(failure) => Err(failure),
                Ok(frame) => Ok(frames.push(frame)),
            },
        }
    }
}

/// The most frames that the engine is asked for, where a negative number asks for all.
pub open spec fn limit_of(depth: Option<usize>) -> int {
    match depth {
        None => -1,
        Some(depth) => if depth > i32::MAX {
            i32::MAX as int
        } else {
            depth as int
        },
    }
}

/// At most `limit` of the first elements, or all of them where `limit` is negative.
pub open spec fn first<T>(entries: Seq<T>, limit: int) -> Seq<T> {
    if limit < 0 || entries.len() <= limit {
        entries
    } else {
        entries.take(limit)
    }
}

/// The frames in the engine's answer to a request for at most `limit` of them.
pub open spec fn trace_frames(trace: Trace, limit: int) -> Result<Seq<FrameView>, Failure> {
    match trace {
        Trace::Absent => Ok(Seq::empty()),
        Trace::Captured(entries) => frames_of(first(entries@, limit)),
        Trace::Fails(failure) => Err(failure),
    }
}

/// What a list of frames says.
pub open spec fn frame_views(frames: Seq<Frame>) -> Seq<FrameView> {
    frames.map_values(|frame: Frame| frame@)
}

/// What the frames that were asked for turned out to be.
pub open spec fn frames_outcome(frames: Result<Vec<Frame>, Failure>) -> Result<
    Seq<FrameView>,
    Failure,
> {
    match frames {
        Ok(frames) => Ok(frame_views(frames@)),
        Err(failure) => Err(failure),
    }
}

/// Once an element stands for no frame, what follows does not matter.
proof fn lemma_frames_fail(entries: Seq<Result<Value, Failure>>, len: int)
    requires
        0 <= len <= entries.len(),
        frames_of(entries.take(len)) is Err,
    ensures
        frames_of(entries) == frames_of(entries.take(len)),
    decreases entries.len(),
{
    if len == entries.len() {
        assert(entries.take(len) =~= entries);
    } else {
        let front = entries.drop_last();
        assert(front.take(len) =~= entries.take(len));
        lemma_frames_fail(front, len);
    }
}

/// Reads the frame that an element of the engine's array of frames stands for.
fn parse_entry(entry: &Result<Value, Failure>) -> (frame: Result<Frame, Failure>)
    ensures
        frame_outcome(frame) == entry_frame(*entry),
{
    match entry {
        Err(failure) => Err(failure.clone()),
        Ok(value) => parse_frame(&value.to_object()?),
    }
}

/// The most frames to ask the engine for, where a negative number asks for all.
pub fn frame_limit(depth: Option<usize>) -> (limit: i32)
    ensures
        limit == limit_of(depth),
{
    match depth {
        None => -1,
        Some(depth) => if depth > i32::MAX as usize {
            i32::MAX
        } else {
            depth as i32
        },
    }
}

/// Reads the frames in the engine's answer: the elements of an array, or none where the
/// answer is no array.
pub fn parse_frames(answer: Option<&[Result<Value, Failure>]>) -> (frames: Result<
    Vec<Frame>,
    Failure,
>)
    ensures
        frames_outcome(frames) == (match answer {
            Some(entries) => frames_of(entries@),
            None => Ok(Seq::empty()),
        }),
{
    let mut frames: Vec<Frame> = Vec::new();
    let Some(entries) = answer else {
        assert(frame_views(frames@) =~= Seq::empty());
        return Ok(frames);
    };
    let mut i: usize = 0;
    assert(frame_views(frames@) =~= Seq::empty());
    while i < entries.len()
        invariant
            i <= entries.len(),
            answer == Some(entries),
            frames_of(entries@.take(i as int)) == Ok::<_, Failure>(frame_views(frames@)),
        decreases entries.len() - i,
    {
        assert(entries@.take(i + 1).drop_last() =~= entries@.take(i as int));
        match parse_entry(&entries[i]) {
            Ok(frame) => {
                let ghost before = frames@;
                frames.push(frame);
                assert(frame_views(frames@) =~= frame_views(before).push(frame@));
            },
            Err(failure) => {
                proof {
                    lemma_frames_fail(entries@, i + 1);
                }
                return Err(failure);
            },
        }
        i = i + 1;
    }
    assert(entries@.take(i as int) =~= entries@);
    Ok(frames)
}

impl Object {
    /// The engine's answer to a request for at most `limit` of the frames that were
    /// captured with an error, or for all where `limit` is negative: the elements of an
    /// array, or `None` for an answer that is no array.
    pub fn error_frames(&self, limit: i32) -> (answer: Result<
        Option<&[Result<Value, Failure>]>,
        Failure,
    >)
        ensures
            match self.body.trace {
                Trace::Absent => answer == Ok::<Option<&[Result<Value, Failure>]>, Failure>(None),
                Trace::Captured(entries) => answer matches Ok(Some(part)) && part@ == first(
                    entries@,
                    limit as int,
                ),
                Trace::Fails(failure) => answer == Err::<
                    Option<&[Result<Value, Failure>]>,
                    Failure,
                >(failure),
            },
    {
        match &self.body.trace {
            Trace::Absent => Ok(None),
            Trace::Captured(entries) => {
                let len: usize = if limit < 0 || entries.len() <= limit as usize {
                    entries.len()
                } else {
                    limit as usize
                };
                let part: &[Result<Value, Failure>] = slice_subrange(entries.as_slice(), 0, len);
                assert(part@ =~= first(entries@, limit as int));
                Ok(Some(part))
            },
            Trace::Fails(failure) => Err(failure.clone()),
        }
    }
}

/// A frame object describes a frame exactly where each of its properties can be read.
pub proof fn law_frame_needs_every_property(object: Object)
    ensures
        frame_of(object) is Ok <==> {
            &&& object::text_at(object, "functionName"@) is Ok
            &&& object::text_at(object, "fileName"@) is Ok
            &&& object::int_at(object, "lineNumber"@) is Ok
            &&& object::int_at(object, "columnNumber"@) is Ok
            &&& object::bool_at(object, "native"@) is Ok
            &&& locals_at(object) is Ok
        },
{
}

/// A listed property is a variable of that value, unless a later one of its name is
/// listed too.
pub proof fn law_listed_properties_are_locals(properties: Seq<Property>, i: int)
    requires
        locals_of(properties) is Ok,
        0 <= i < properties.len(),
        properties[i].listed,
        forall|j: int|
            i < j < properties.len() && properties[j].listed ==> #[trigger] properties[j].name@
                != properties[i].name@,
    ensures
        locals_of(properties)->Ok_0.dom().contains(properties[i].name@),
        properties[i].read == Ok::<Value, Failure>(
            locals_of(properties)->Ok_0[properties[i].name@],
        ),
    decreases properties.len(),
{
    if i < properties.len() - 1 {
        let front = properties.drop_last();
        assert forall|j: int|
            i < j < front.len() && front[j].listed implies #[trigger] front[j].name@
            != front[i].name@ by {
            assert(front[j] == properties[j]);
        }
        law_listed_properties_are_locals(front, i);
        assert(properties.last() == properties[properties.len() - 1]);
    }
}

/// Every variable is a listed property.
pub proof fn law_locals_are_listed_properties(properties: Seq<Property>, name: Seq<char>)
    requires
        locals_of(properties) matches Ok(locals) && locals.dom().contains(name),
    ensures
        exists|i: int|
            0 <= i < properties.len() && properties[i].listed && #[trigger] properties[i].name@
                == name,
    decreases properties.len(),
{
    if properties.len() > 0 {
        let front = properties.drop_last();
        let last = properties[properties.len() - 1];
        if !(last.listed && last.name@ == name) {
            law_locals_are_listed_properties(front, name);
            let i = choose|i: int|
                0 <= i < front.len() && front[i].listed && #[trigger] front[i].name@ == name;
            assert(properties[i] == front[i]);
        }
    }
}

/// The elements of an array of frames stand for frames exactly where each of them does,
/// and then for one frame each, in order.
pub proof fn law_frames_are_one_for_one(entries: Seq<Result<Value, Failure>>)
    ensures
        frames_of(entries) is Ok <==> forall|i: int|
            0 <= i < entries.len() ==> entry_frame(#[trigger] entries[i]) is Ok,
        frames_of(entries) matches Ok(frames) ==> {
            &&& frames.len() == entries.len()
            &&& forall|i: int|
                0 <= i < entries.len() ==> entry_frame(#[trigger] entries[i]) == Ok::<
                    FrameView,
                    Failure,
                >(frames[i])
        },
    decreases entries.len(),
{
    if entries.len() > 0 {
        let front = entries.drop_last();
        let last = entries[entries.len() - 1];
        law_frames_are_one_for_one(front);
        if frames_of(front) is Ok {
            assert forall|i: int| 0 <= i < front.len() implies entry_frame(
                #[trigger] entries[i],
            ) == Ok::<FrameView, Failure>(frames_of(front)->Ok_0[i]) by {
                assert(front[i] == entries[i]);
            }
        } else {
            let i = choose|i: int| 0 <= i < front.len() && entry_frame(#[trigger] front[i]) is Err;
            assert(front[i] == entries[i]);
        }
        assert(entries.last() == last);
    }
}

/// The failure is that of the first element that stands for no frame.
pub proof fn law_first_failure_counts(entries: Seq<Result<Value, Failure>>, i: int)
    requires
        0 <= i < entries.len(),
        entry_frame(entries[i]) is Err,
        forall|j: int| 0 <= j < i ==> entry_frame(#[trigger] entries[j]) is Ok,
    ensures
        frames_of(entries) == Err::<Seq<FrameView>, Failure>(entry_frame(entries[i])->Err_0),
{
    let until = entries.take(i + 1);
    law_frames_are_one_for_one(entries.take(i));
    assert(until.drop_last() =~= entries.take(i));
    assert(until.last() == entries[i]);
    lemma_frames_fail(entries, i + 1);
}

/// Asking for no more than so many frames gives a beginning of what asking for more, or
/// for all, gives.
pub proof fn law_depth_gives_a_beginning(trace: Trace, less: int, more: int)
    requires
        0 <= less,
        more < 0 || less <= more,
        trace_frames(trace, more) is Ok,
    ensures
        trace_frames(trace, less) == Ok::<Seq<FrameView>, Failure>(
            first(trace_frames(trace, more)->Ok_0, less),
        ),
{
    if let Trace::Captured(entries) = trace {
        let large = first(entries@, more);
        let small = first(entries@, less);
        law_frames_are_one_for_one(large);
        law_frames_are_one_for_one(small);
        assert forall|i: int| 0 <= i < small.len() implies entry_frame(#[trigger] small[i])
            is Ok by {
            assert(small[i] == large[i]);
        }
        let frames = frames_of(small)->Ok_0;
        assert forall|i: int| 0 <= i < frames.len() implies #[trigger] frames[i] == frames_of(
            large,
        )->Ok_0[i] by {
            assert(entry_frame(small[i]) is Ok);
            assert(entry_frame(large[i]) is Ok);
        }
        assert(frames =~= first(frames_of(large)->Ok_0, less));
    }
}

/// There are never more frames than were asked for.
pub proof fn law_depth_caps_frames(trace: Trace, depth: usize)
    ensures
        trace_frames(trace, limit_of(Some(depth))) matches Ok(frames) ==> frames.len() <= depth,
{
    if let Trace::Captured(entries) = trace {
        law_frames_are_one_for_one(first(entries@, limit_of(Some(depth))));
    }
}

/// Where nothing was captured there are no frames, whatever is asked for.
pub proof fn law_no_capture_no_frames(depth: Option<usize>)
    ensures
        trace_frames(Trace::Absent, limit_of(depth)) == Ok::<Seq<FrameView>, Failure>(
            Seq::empty(),
        ),
{
}

/// The innermost frame is the same whether it alone or more frames are asked for.
pub proof fn law_innermost_frame_is_first(trace: Trace, depth: Option<usize>)
    requires
        depth != Some(0usize),
        trace_frames(trace, limit_of(depth)) is Ok,
    ensures
        trace_frames(trace, 1) == Ok::<Seq<FrameView>, Failure>(
            first(trace_frames(trace, limit_of(depth))->Ok_0, 1),
        ),
{
    law_depth_gives_a_beginning(trace, 1, limit_of(depth));
}

/// Variables can be had exactly where every listed property can be read.
pub proof fn law_locals_need_every_listed_property(properties: Seq<Property>)
    ensures
        locals_of(properties) is Ok <==> forall|i: int|
            0 <= i < properties.len() && properties[i].listed ==> (
            #[trigger] properties[i]).read is Ok,
    decreases properties.len(),
{
    if properties.len() > 0 {
        let front = properties.drop_last();
        let last = properties[properties.len() - 1];
        law_locals_need_every_listed_property(front);
        if locals_of(front) is Ok {
            assert forall|i: int| 0 <= i < front.len() && properties[i].listed implies (
            #[trigger] properties[i]).read is Ok by {
                assert(front[i] == properties[i]);
            }
        } else {
            let i = choose|i: int|
                0 <= i < front.len() && front[i].listed && (#[trigger] front[i]).read is Err;
            assert(properties[i] == front[i]);
        }
        assert(properties.last() == last);
    }
}

/// Where the names of an object's properties are distinct, the variables that it describes
/// are exactly the listed names, each with what reading it gives.
pub proof fn law_locals_are_what_is_listed(object: Object, name: Seq<char>)
    requires
        object::names_are_distinct(object.body.properties@),
        locals_of(object.body.properties@) is Ok,
    ensures
        locals_of(object.body.properties@)->Ok_0.dom().contains(name) <==> (object::lookup(
            object.body.properties@,
            name,
        ) matches Some(property) && property.listed),
        locals_of(object.body.properties@)->Ok_0.dom().contains(name) ==> object::value_at(
            object,
            name,
        ) == Ok::<Value, Failure>(locals_of(object.body.properties@)->Ok_0[name]),
{
    let properties = object.body.properties@;
    let locals = locals_of(properties)->Ok_0;
    if locals.dom().contains(name) {
        law_locals_are_listed_properties(properties, name);
        let i = choose|i: int|
            0 <= i < properties.len() && properties[i].listed && #[trigger] properties[i].name@
                == name;
        object::law_distinct_names_find_their_property(properties, i);
        law_listed_properties_are_locals(properties, i);
    }
    if object::lookup(properties, name) is Some {
        let i = object::position(properties, name) as int;
        object::law_found_property_has_the_name(properties, name);
        if properties[i].listed {
            law_listed_properties_are_locals(properties, i);
        }
    }
}

/// What the engine records of a native frame: no file, no line and no variables.
pub open spec fn is_engine_record(object: Object) -> bool {
    object::bool_at(object, "native"@) == Ok::<Option<bool>, Failure>(Some(true)) ==> {
        &&& object::text_at(object, "fileName"@) == Ok::<Option<Seq<char>>, Failure>(None)
        &&& object::int_at(object, "lineNumber"@) matches Ok(line) && position(line) is None
        &&& locals_at(object) == Ok::<Map<Seq<char>, Value>, Failure>(locals::no_locals())
    }
}

/// The captured entry is a record as the engine makes them.
pub open spec fn is_engine_entry(entry: Result<Value, Failure>) -> bool {
    entry matches Ok(Value::Object(object)) && is_engine_record(object)
}

/// A native frame that the engine recorded has no file, no line and no variables.
pub proof fn law_native_frames_are_bare(trace: Trace, limit: int, i: int)
    requires
        trace matches Trace::Captured(entries) && 0 <= i < first(entries@, limit).len()
            && is_engine_entry(entries@[i]),
        trace_frames(trace, limit) is Ok,
        trace_frames(trace, limit)->Ok_0[i].native,
    ensures
        trace_frames(trace, limit)->Ok_0[i].file_name is None,
        trace_frames(trace, limit)->Ok_0[i].line_number is None,
        trace_frames(trace, limit)->Ok_0[i].locals == locals::no_locals(),
{
    if let Trace::Captured(entries) = trace {
        let part = first(entries@, limit);
        law_frames_are_one_for_one(part);
        assert(part[i] == entries@[i]);
        assert(entry_frame(part[i]) is Ok);
    }
}

/// The innermost variables of an error that was thrown from a native frame are none.
pub proof fn law_native_throw_has_no_locals(trace: Trace, object: Object)
    requires
        trace matches Trace::Captured(entries) && entries@.len() > 0 && entries@[0] == Ok::<
            Value,
            Failure,
        >(Value::Object(object)),
        is_engine_record(object),
        object::bool_at(object, "native"@) == Ok::<Option<bool>, Failure>(Some(true)),
        trace_frames(trace, 1) is Ok,
    ensures
        trace_frames(trace, 1)->Ok_0.len() == 1,
        trace_frames(trace, 1)->Ok_0[0].native,
        trace_frames(trace, 1)->Ok_0[0].locals == locals::no_locals(),
{
    if let Trace::Captured(entries) = trace {
        let part = first(entries@, 1);
        law_frames_are_one_for_one(part);
        assert(part[0] == entries@[0]);
        assert(entry_frame(part[0]) is Ok);
    }
}

} // verus!
