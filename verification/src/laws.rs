//! What the operations are for, stated of the calls themselves: each law takes the
//! arguments and the result of a call, and says in terms of the plain fields of a script
//! value what the one has to do with the other.
use crate::convert;
use crate::convert::decimal_text;
use crate::ctx::{Ctx, Error};
use crate::display;
use crate::display::{debug_text, pieces};
use crate::exception;
use crate::exception::Exception;
use crate::frame;
use crate::frame::{frame_limit, parse_frame, parse_frames, Frame};
use crate::locals::Locals;
use crate::object;
use crate::text;
use crate::text::{c_message, c_text, truncate_str};
use crate::value::{
    Class, ErrorKind, Failure, Object, Other, Property, Trace, Type, Value, Write,
};
use vstd::prelude::*;
use vstd::utf8::*;

verus! {

/// `i` is the index of the first property of that name.
pub open spec fn is_first(properties: Seq<Property>, name: Seq<char>, i: int) -> bool {
    &&& 0 <= i < properties.len()
    &&& properties[i].name@ == name
    &&& forall|j: int| 0 <= j < i ==> (#[trigger] properties[j]).name@ != name
}

/// `found` is the first property of that name, or `None` where no property has it.
pub open spec fn finds(
    properties: Seq<Property>,
    name: Seq<char>,
    found: Option<Property>,
) -> bool {
    match found {
        Some(property) => exists|i: int|
            #[trigger] is_first(properties, name, i) && properties[i] == property,
        None => forall|j: int|
            0 <= j < properties.len() ==> (#[trigger] properties[j]).name@ != name,
    }
}

proof fn lemma_finds(properties: Seq<Property>, name: Seq<char>, found: Option<Property>)
    ensures
        finds(properties, name, found) <==> object::lookup(properties, name) == found,
{
    object::law_found_is_first_of_its_name(properties, name);
    if finds(properties, name, found) {
        match found {
            Some(property) => {
                let i = choose|i: int|
                    #[trigger] is_first(properties, name, i) && properties[i] == property;
                object::law_first_of_a_name_is_found(properties, name, i);
            },
            None => {
                object::law_missing_name_finds_nothing(properties, name);
            },
        }
    }
    if object::lookup(properties, name) == found {
        if let Some(property) = found {
            let i = choose|i: int|
                0 <= i < properties.len() && #[trigger] properties[i] == property
                    && properties[i].name@ == name && forall|j: int|
                    0 <= j < i ==> (#[trigger] properties[j]).name@ != name;
            assert(is_first(properties, name, i));
        }
    }
}

/// Undefined, null or not initialized.
pub open spec fn stands_for_none(value: Value) -> bool {
    value is Undefined || value is Null || value is Uninitialized
}

/// The number that a sequence of decimal digits writes.
pub open spec fn numeral(text: Seq<char>) -> int
    decreases text.len(),
{
    if text.len() == 0 {
        0
    } else {
        numeral(text.drop_last()) * 10 + (text.last() as int - '0' as int)
    }
}

/// The text is the number in decimal digits, without leading zeros.
pub open spec fn writes_natural(text: Seq<char>, n: int) -> bool {
    &&& text.len() > 0
    &&& forall|i: int| 0 <= i < text.len() ==> '0' <= #[trigger] text[i] <= '9'
    &&& text.len() > 1 ==> text[0] != '0'
    &&& numeral(text) == n
}

/// The text is the number in decimal digits, after a minus sign where it is negative.
pub open spec fn writes_integer(text: Seq<char>, n: int) -> bool {
    if n < 0 {
        &&& text.len() > 1
        &&& text[0] == '-'
        &&& writes_natural(text.drop_first(), -n)
    } else {
        writes_natural(text, n)
    }
}

proof fn lemma_digits(n: nat)
    ensures
        writes_natural(convert::digits(n), n as int),
        n > 0 ==> convert::digits(n)[0] != '0',
    decreases n,
{
    let text = convert::digits(n);
    if n < 10 {
        assert(text.drop_last() =~= Seq::empty());
        assert(numeral(text.drop_last()) == 0);
        assert(text.last() as int == '0' as int + n);
    } else {
        lemma_digits(n / 10);
        assert(text.drop_last() =~= convert::digits(n / 10));
        assert(text.last() as int == '0' as int + n % 10);
    }
}

proof fn lemma_decimal(n: int)
    ensures
        writes_integer(convert::decimal(n), n),
{
    if n < 0 {
        lemma_digits((-n) as nat);
        assert(convert::decimal(n).drop_first() =~= convert::digits((-n) as nat));
    } else {
        lemma_digits(n as nat);
    }
}

/// The decimal text of an integer writes that integer.
pub proof fn law_decimal_text_writes_the_number(n: i32, text: String)
    requires
        call_ensures(decimal_text, (n,), text),
    ensures
        writes_integer(text@, n as int),
{
    lemma_decimal(n as int);
}

/// What a value is as a text: nothing for a missing value, a string as it is, a flag by its
/// word, a number by its digits, anything else by what the engine converts it to.
pub proof fn law_text_of_a_value(
    value: Value,
    object_text: Result<String, Failure>,
    text: Result<Option<String>, Failure>,
)
    requires
        call_ensures(Value::to_text, (&value, &object_text), text),
    ensures
        stands_for_none(value) ==> text matches Ok(None),
        value matches Value::String(held) ==> (text matches Ok(Some(text)) && text@ == held@),
        value matches Value::Bool(true) ==> (text matches Ok(Some(text)) && text@ == "true"@),
        value matches Value::Bool(false) ==> (text matches Ok(Some(text)) && text@ == "false"@),
        value matches Value::Int(n) ==> (text matches Ok(Some(text)) && writes_integer(
            text@,
            n as int,
        )),
        value matches Value::Other(other) ==> match other.text {
            Ok(given) => text matches Ok(Some(text)) && text@ == given@,
            Err(failure) => text matches Err(error) && error == failure,
        },
        value is Object ==> match object_text {
            Ok(given) => text matches Ok(Some(text)) && text@ == given@,
            Err(failure) => text matches Err(error) && error == failure,
        },
{
    if let Value::Int(n) = value {
        lemma_decimal(n as int);
    }
}

/// What a value is as an integer: nothing for a missing value, an integer as it is, another
/// number by what the engine converts it to, and a mismatch for anything else.
pub proof fn law_integer_of_a_value(
    value: Value,
    kind: Type,
    number: Result<Option<i32>, Failure>,
)
    requires
        call_ensures(Value::to_int, (&value,), number),
        call_ensures(Value::type_of, (&value,), kind),
    ensures
        stands_for_none(value) ==> number matches Ok(None),
        value matches Value::Int(n) ==> number == Ok::<Option<i32>, Failure>(Some(n)),
        value matches Value::Other(other) ==> (other.integer is Some ==> number == Ok::<
            Option<i32>,
            Failure,
        >(other.integer)),
        (value is Bool || value is String || value is Object || (value matches Value::Other(
            other,
        ) && other.integer is None)) ==> number == Err::<Option<i32>, Failure>(
            Failure::FromJs { from: kind, to: Type::Int },
        ),
{
}

/// What a value is as a flag.
pub proof fn law_flag_of_a_value(value: Value, kind: Type, flag: Result<Option<bool>, Failure>)
    requires
        call_ensures(Value::to_bool, (&value,), flag),
        call_ensures(Value::type_of, (&value,), kind),
    ensures
        stands_for_none(value) ==> flag matches Ok(None),
        value matches Value::Bool(held) ==> flag == Ok::<Option<bool>, Failure>(Some(held)),
        !stands_for_none(value) && !(value is Bool) ==> flag == Err::<Option<bool>, Failure>(
            Failure::FromJs { from: kind, to: Type::Bool },
        ),
{
}

/// What a value is as an object, where one has to be there and where it may be missing.
pub proof fn law_object_of_a_value(
    value: Value,
    kind: Type,
    needed: Result<Object, Failure>,
    optional: Result<Option<Object>, Failure>,
)
    requires
        call_ensures(Value::to_object, (&value,), needed),
        call_ensures(Value::to_optional_object, (&value,), optional),
        call_ensures(Value::type_of, (&value,), kind),
    ensures
        value matches Value::Object(held) ==> {
            &&& needed == Ok::<Object, Failure>(held)
            &&& optional == Ok::<Option<Object>, Failure>(Some(held))
        },
        !(value is Object) ==> needed == Err::<Object, Failure>(
            Failure::FromJs { from: kind, to: Type::Object },
        ),
        stands_for_none(value) ==> optional matches Ok(None),
        !(value is Object) && !stands_for_none(value) ==> optional == Err::<
            Option<Object>,
            Failure,
        >(Failure::FromJs { from: kind, to: Type::Object }),
{
}

/// The type of a value, by its variant, and of an object, by its class.
pub proof fn law_type_of_a_value(value: Value, kind: Type)
    requires
        call_ensures(Value::type_of, (&value,), kind),
    ensures
        value is Uninitialized ==> kind is Uninitialized,
        value is Undefined ==> kind is Undefined,
        value is Null ==> kind is Null,
        value is Bool ==> kind is Bool,
        value is Int ==> kind is Int,
        value is String ==> kind is String,
        value matches Value::Other(other) ==> kind == other.kind,
        value matches Value::Object(object) && object.body.class is Plain ==> kind is Object,
        value matches Value::Object(object) && object.body.class is Array ==> kind is Array,
        value matches Value::Object(object) && object.body.class is Function ==> kind is Function,
        value matches Value::Object(object) && object.body.class is Error ==> kind is Exception,
{
}

/// Reading a property gives what the first property of that name reads as, and undefined
/// where there is none.
pub proof fn law_get_reads_the_property(
    object: Object,
    name: &str,
    found: Option<Property>,
    value: Result<Value, Failure>,
)
    requires
        call_ensures(Object::get, (&object, name), value),
        finds(object.body.properties@, name@, found),
    ensures
        found is None ==> value == Ok::<Value, Failure>(Value::Undefined),
        found matches Some(property) ==> value == property.read,
{
    lemma_finds(object.body.properties@, name@, found);
}

/// Reading a property as something is reading it and then converting what it reads as.
pub proof fn law_typed_reads_convert(
    object: Object,
    name: &str,
    property: Property,
    value: Value,
    text: Result<Option<String>, Failure>,
    direct_text: Result<Option<String>, Failure>,
    number: Result<Option<i32>, Failure>,
    direct_number: Result<Option<i32>, Failure>,
    flag: Result<Option<bool>, Failure>,
    direct_flag: Result<Option<bool>, Failure>,
    inner: Result<Option<Object>, Failure>,
    direct_inner: Result<Option<Object>, Failure>,
)
    requires
        finds(object.body.properties@, name@, Some(property)),
        property.read == Ok::<Value, Failure>(value),
        call_ensures(Object::get_text, (&object, name), text),
        call_ensures(Value::to_text, (&value, &property.text), direct_text),
        call_ensures(Object::get_int, (&object, name), number),
        call_ensures(Value::to_int, (&value,), direct_number),
        call_ensures(Object::get_bool, (&object, name), flag),
        call_ensures(Value::to_bool, (&value,), direct_flag),
        call_ensures(Object::get_object, (&object, name), inner),
        call_ensures(Value::to_optional_object, (&value,), direct_inner),
    ensures
        match (text, direct_text) {
            (Ok(Some(text)), Ok(Some(direct))) => text@ == direct@,
            (Ok(None), Ok(None)) => true,
            (Err(failure), Err(direct)) => failure == direct,
            _ => false,
        },
        number == direct_number,
        flag == direct_flag,
        inner == direct_inner,
{
    lemma_finds(object.body.properties@, name@, Some(property));
}

/// A property that cannot be read fails every read of it, and one that is missing gives
/// nothing.
pub proof fn law_typed_reads_pass_failures_on(
    object: Object,
    name: &str,
    found: Option<Property>,
    text: Result<Option<String>, Failure>,
    number: Result<Option<i32>, Failure>,
    flag: Result<Option<bool>, Failure>,
    inner: Result<Option<Object>, Failure>,
)
    requires
        finds(object.body.properties@, name@, found),
        call_ensures(Object::get_text, (&object, name), text),
        call_ensures(Object::get_int, (&object, name), number),
        call_ensures(Object::get_bool, (&object, name), flag),
        call_ensures(Object::get_object, (&object, name), inner),
    ensures
        found is None ==> {
            &&& text matches Ok(None)
            &&& number matches Ok(None)
            &&& flag matches Ok(None)
            &&& inner matches Ok(None)
        },
        found matches Some(property) ==> (property.read matches Err(failure) ==> {
            &&& text == Err::<Option<String>, Failure>(failure)
            &&& number == Err::<Option<i32>, Failure>(failure)
            &&& flag == Err::<Option<bool>, Failure>(failure)
            &&& inner == Err::<Option<Object>, Failure>(failure)
        }),
{
    lemma_finds(object.body.properties@, name@, found);
}

/// Writing a text: a property that refuses writes fails them; one that ignores them leaves
/// the object as it is; a setter leaves what it leaves; and in any other case the text is
/// what the name then finds, listed as it was where the property was the object's own and
/// listed where it was not, and every other name finds what it found.
pub proof fn law_set_text_writes_the_property(
    object: Object,
    name: &str,
    text: &str,
    result: Result<Object, Failure>,
    found: Option<Property>,
    written: Option<Property>,
    other: Seq<char>,
    other_found: Option<Property>,
)
    requires
        call_ensures(Object::set_text, (&object, name, text), result),
        finds(object.body.properties@, name@, found),
        result matches Ok(after) ==> finds(after.body.properties@, name@, written),
        other != name@,
        finds(object.body.properties@, other, other_found),
    ensures
        result is Err <==> (found matches Some(property) && property.write is Fail),
        result matches Err(failure) ==> found->0.write == Write::Fail(failure),
        result matches Ok(after) ==> {
            &&& after.id == object.id
            &&& after.body.class == object.body.class
        },
        result matches Ok(after) ==> (found matches Some(property) ==> (
        property.write is Ignore ==> {
            &&& after.body.properties@ == object.body.properties@
            &&& after.body.items@ == object.body.items@
            &&& after.body.trace == object.body.trace
        })),
        result matches Ok(after) ==> (found matches Some(property) ==> (
        property.write matches Write::Run(left) ==> {
            &&& after.body.properties@ == left.properties@
            &&& after.body.items@ == left.items@
            &&& after.body.trace == left.trace
        })),
        result matches Ok(after) ==> ((found is None || found->0.write is Replace
            || found->0.write is Add) ==> {
            &&& written matches Some(property) && {
                &&& property.name@ == name@
                &&& property.read matches Ok(Value::String(held)) && held@ == text@
                &&& property.text matches Ok(converted) && converted@ == text@
                &&& property.write is Replace
                &&& property.listed == (found is Some && found->0.write is Replace
                    ==> found->0.listed)
            }
            &&& finds(after.body.properties@, other, other_found)
            &&& after.body.items@ == object.body.items@
            &&& after.body.trace == object.body.trace
        }),
{
    let before = object.body.properties@;
    lemma_finds(before, name@, found);
    lemma_finds(before, other, other_found);
    if let Ok(after) = result {
        let new = after.body.properties@;
        lemma_finds(new, name@, written);
        lemma_finds(new, other, other_found);
        match object::write_in(before, name@) {
            Write::Replace => {
                let listed = before[object::position(before, name@) as int].listed;
                object::law_put_text_reads_back(before, new, name@, text@, listed, other);
            },
            Write::Add => {
                object::law_added_text_reads_back(before, new, name@, text@, other);
            },
            _ => {},
        }
    }
}

/// Tells the properties that have another name.
pub open spec fn is_named_otherwise(name: Seq<char>) -> spec_fn(Property) -> bool {
    |property: Property| property.name@ != name
}

proof fn lemma_without_is_filter(properties: Seq<Property>, name: Seq<char>)
    ensures
        object::without(properties, name) == properties.filter(is_named_otherwise(name)),
    decreases properties.len(),
{
    let keeps = is_named_otherwise(name);
    reveal_with_fuel(Seq::<_>::filter, 2);
    if properties.len() > 0 {
        let head = seq![properties[0]];
        let rest = properties.drop_first();
        lemma_without_is_filter(rest, name);
        assert(head + rest =~= properties);
        Seq::filter_distributes_over_add(head, rest, keeps);
        assert(head.drop_last() =~= Seq::empty());
        if keeps(properties[0]) {
            assert(head.filter(keeps) =~= head);
        } else {
            assert(head.filter(keeps) =~= Seq::empty());
        }
        assert(object::without(properties, name) =~= properties.filter(keeps));
    }
}

/// Writing a text leaves the other properties in their places, as they are: where the
/// property is the object's own it is replaced where it stands, and where it is not it comes
/// behind all others and in place of any of that name.
pub proof fn law_set_text_keeps_the_other_properties(
    object: Object,
    name: &str,
    text: &str,
    after: Object,
    found: Option<Property>,
)
    requires
        call_ensures(Object::set_text, (&object, name, text), Ok::<Object, Failure>(after)),
        finds(object.body.properties@, name@, found),
    ensures
        found matches Some(property) ==> (property.write is Replace ==> {
            &&& after.body.properties@.len() == object.body.properties@.len()
            &&& forall|i: int|
                0 <= i < object.body.properties@.len() && !is_first(
                    object.body.properties@,
                    name@,
                    i,
                ) ==> after.body.properties@[i] == #[trigger] object.body.properties@[i]
        }),
        (found is None || found->0.write is Add) ==> {
            &&& after.body.properties@.len() > 0
            &&& after.body.properties@.last().name@ == name@
            &&& after.body.properties@.drop_last() == object.body.properties@.filter(
                is_named_otherwise(name@),
            )
        },
{
    let before = object.body.properties@;
    lemma_finds(before, name@, found);
    lemma_without_is_filter(before, name@);
    if found is Some {
        lemma_position_is_first(before, name@);
    }
}

proof fn lemma_position_is_first(properties: Seq<Property>, name: Seq<char>)
    requires
        object::lookup(properties, name) is Some,
    ensures
        is_first(properties, name, object::position(properties, name) as int),
    decreases properties.len(),
{
    if properties[0].name@ != name {
        let rest = properties.drop_first();
        lemma_position_is_first(rest, name);
        let k = object::position(properties, name) as int;
        assert forall|j: int| 0 <= j < k implies (#[trigger] properties[j]).name@ != name by {
            if j > 0 {
                assert(rest[j - 1] == properties[j]);
            }
        }
    }
}

/// A copy of a value, or of a part of one, is equal to it.
pub proof fn law_copies_are_equal(
    value: Value,
    value_copy: Value,
    object: Object,
    object_copy: Object,
    other: Other,
    other_copy: Other,
    property: Property,
    property_copy: Property,
    write: Write,
    write_copy: Write,
    trace: Trace,
    trace_copy: Trace,
    failure: Failure,
    failure_copy: Failure,
)
    requires
        call_ensures(Value::clone, (&value,), value_copy),
        call_ensures(Object::clone, (&object,), object_copy),
        call_ensures(Other::clone, (&other,), other_copy),
        call_ensures(Property::clone, (&property,), property_copy),
        call_ensures(Write::clone, (&write,), write_copy),
        call_ensures(Trace::clone, (&trace,), trace_copy),
        call_ensures(Failure::clone, (&failure,), failure_copy),
    ensures
        value_copy == value,
        object_copy == object,
        other_copy == other,
        property_copy == property,
        write_copy == write,
        trace_copy == trace,
        failure_copy == failure,
{
}

/// Whether an object is an error is a matter of its class alone.
pub proof fn law_errors_are_told_by_their_class(object: Object, error: bool)
    requires
        call_ensures(Object::is_error, (&object,), error),
    ensures
        error <==> object.body.class is Error,
        object.body.class is Plain ==> !error,
        object.body.class is Array ==> !error,
        object.body.class is Function ==> !error,
{
}

/// An object makes an exception exactly where its class is that of an error, whatever its
/// properties are, and the exception is that object.
pub proof fn law_exceptions_are_objects_of_an_error_class(
    object: Object,
    exception: Option<Exception>,
)
    requires
        call_ensures(Exception::from_object, (object,), exception),
    ensures
        exception is Some <==> exists|kind: ErrorKind| object.body.class == Class::Error(kind),
        object.body.class is Plain ==> exception is None,
        object.body.class is Array ==> exception is None,
        object.body.class is Function ==> exception is None,
        exception matches Some(exception) ==> exception@ == object,
{
    if let Class::Error(kind) = object.body.class {
        assert(object.body.class == Class::Error(kind));
    }
}

/// An exception gives back the object that it was made of, lent or for good, and a copy of
/// it too.
pub proof fn law_exception_gives_its_object_back(
    object: Object,
    exception: Exception,
    lent: &Object,
    copy: Exception,
    copied: Object,
    given: Object,
)
    requires
        call_ensures(Exception::from_object, (object,), Some(exception)),
        call_ensures(Exception::as_object, (&exception,), lent),
        call_ensures(Exception::clone, (&exception,), copy),
        call_ensures(Exception::into_object, (copy,), copied),
        call_ensures(Exception::into_object, (exception,), given),
    ensures
        *lent == object,
        copied == object,
        given == object,
        exception@ == object,
{
}

/// Every exception is an object of an error class.
pub proof fn law_exceptions_have_an_error_class(
    exception: Exception,
    object: Object,
    lent: &Object,
)
    requires
        call_ensures(Exception::into_object, (exception,), object),
        call_ensures(Exception::as_object, (&exception,), lent),
    ensures
        object == exception@,
        *lent == object,
        object.body.class is Error,
{
}

/// Exceptions, and objects, are equal exactly where their identities are.
pub proof fn law_equality_is_identity(
    first: Exception,
    second: Exception,
    equal: bool,
    first_object: Object,
    second_object: Object,
    same: bool,
)
    requires
        call_ensures(Exception::eq, (&first, &second), equal),
        call_ensures(Object::eq, (&first_object, &second_object), same),
    ensures
        equal <==> first@.id == second@.id,
        same <==> first_object.id == second_object.id,
{
}

/// What a failed read leaves pending: what the script threw, if that was it, and otherwise
/// what was pending before.
pub open spec fn reports(before: Ctx, after: Ctx, failure: Failure) -> bool {
    match failure {
        Failure::Thrown(value) => after == (Ctx { pending: Some(*value), ..before }),
        _ => after == before,
    }
}

/// The error that a failed read is answered with.
pub open spec fn answers(error: Error, failure: Failure) -> bool {
    match failure {
        Failure::Thrown(_) => error == Error::Exception,
        Failure::Utf8 => error == Error::Utf8,
        Failure::FromJs { from, to } => error == (Error::FromJs { from, to }),
    }
}

/// The message of an error is the whole of what its property `message` reads as: a string as it
/// is, of any length; nothing where the property is missing, undefined or null; any other
/// value by its conversion to a string; and nothing where that fails, with what the script
/// threw left pending.
pub proof fn law_message_is_what_the_property_reads_as(
    exception: Exception,
    ctx: &mut Ctx,
    text: Option<String>,
    found: Option<Property>,
)
    requires
        call_ensures(Exception::message, (&exception, ctx), text),
        finds(exception@.body.properties@, "message"@, found),
    ensures
        found is None ==> text is None && *final(ctx) == *old(ctx),
        found matches Some(property) ==> (property.read matches Ok(value) ==> {
            &&& stands_for_none(value) ==> text is None
            &&& value matches Value::String(held) ==> (text matches Some(text) && text@ == held@)
            &&& value matches Value::Bool(true) ==> (text matches Some(text) && text@ == "true"@)
            &&& value matches Value::Bool(false) ==> (text matches Some(text)
                && text@ == "false"@)
            &&& value matches Value::Int(n) ==> (text matches Some(text) && writes_integer(
                text@,
                n as int,
            ))
            &&& !(value is Other) && !(value is Object) ==> *final(ctx) == *old(ctx)
        }),
        found matches Some(property) ==> (property.read matches Ok(Value::Other(other))
            ==> match other.text {
            Ok(given) => (text matches Some(text) && text@ == given@) && *final(ctx) == *old(ctx),
            Err(failure) => text is None && reports(*old(ctx), *final(ctx), failure),
        }),
        found matches Some(property) ==> (property.read matches Ok(Value::Object(_))
            ==> match property.text {
            Ok(given) => (text matches Some(text) && text@ == given@) && *final(ctx) == *old(ctx),
            Err(failure) => text is None && reports(*old(ctx), *final(ctx), failure),
        }),
        found matches Some(property) ==> (property.read matches Err(failure) ==> text is None
            && reports(*old(ctx), *final(ctx), failure)),
{
    lemma_finds(exception@.body.properties@, "message"@, found);
    if let Some(property) = found {
        if let Ok(Value::Int(n)) = property.read {
            lemma_decimal(n as int);
        }
    }
}

/// The stack of an error is the whole of what its property `stack` reads as: a string as it
/// is, of any length; nothing where the property is missing, undefined or null; any other
/// value by its conversion to a string; and nothing where that fails, with what the script
/// threw left pending.
pub proof fn law_stack_is_what_the_property_reads_as(
    exception: Exception,
    ctx: &mut Ctx,
    text: Option<String>,
    found: Option<Property>,
)
    requires
        call_ensures(Exception::stack, (&exception, ctx), text),
        finds(exception@.body.properties@, "stack"@, found),
    ensures
        found is None ==> text is None && *final(ctx) == *old(ctx),
        found matches Some(property) ==> (property.read matches Ok(value) ==> {
            &&& stands_for_none(value) ==> text is None
            &&& value matches Value::String(held) ==> (text matches Some(text) && text@ == held@)
            &&& value matches Value::Bool(true) ==> (text matches Some(text) && text@ == "true"@)
            &&& value matches Value::Bool(false) ==> (text matches Some(text)
                && text@ == "false"@)
            &&& value matches Value::Int(n) ==> (text matches Some(text) && writes_integer(
                text@,
                n as int,
            ))
            &&& !(value is Other) && !(value is Object) ==> *final(ctx) == *old(ctx)
        }),
        found matches Some(property) ==> (property.read matches Ok(Value::Other(other))
            ==> match other.text {
            Ok(given) => (text matches Some(text) && text@ == given@) && *final(ctx) == *old(ctx),
            Err(failure) => text is None && reports(*old(ctx), *final(ctx), failure),
        }),
        found matches Some(property) ==> (property.read matches Ok(Value::Object(_))
            ==> match property.text {
            Ok(given) => (text matches Some(text) && text@ == given@) && *final(ctx) == *old(ctx),
            Err(failure) => text is None && reports(*old(ctx), *final(ctx), failure),
        }),
        found matches Some(property) ==> (property.read matches Err(failure) ==> text is None
            && reports(*old(ctx), *final(ctx), failure)),
{
    lemma_finds(exception@.body.properties@, "stack"@, found);
    if let Some(property) = found {
        if let Ok(Value::Int(n)) = property.read {
            lemma_decimal(n as int);
        }
    }
}

/// The property, if it is there, can be read as a text.
pub open spec fn has_text(found: Option<Property>) -> bool {
    found matches Some(property) ==> {
        &&& property.read is Ok
        &&& property.read matches Ok(Value::Other(other)) ==> other.text is Ok
        &&& property.read matches Ok(Value::Object(_)) ==> property.text is Ok
    }
}

/// The property, if it is there, can be read as an integer.
pub open spec fn has_integer(found: Option<Property>) -> bool {
    found matches Some(property) ==> match property.read {
        Ok(Value::Int(_)) => true,
        Ok(Value::Other(other)) => other.integer is Some,
        Ok(value) => stands_for_none(value),
        Err(_) => false,
    }
}

/// The property, if it is there, can be read as a flag.
pub open spec fn has_flag(found: Option<Property>) -> bool {
    found matches Some(property) ==> match property.read {
        Ok(Value::Bool(_)) => true,
        Ok(value) => stands_for_none(value),
        Err(_) => false,
    }
}

/// The property, if it is there, is an object of which every listed property can be read.
pub open spec fn has_variables(found: Option<Property>) -> bool {
    found matches Some(property) ==> match property.read {
        Ok(Value::Object(inner)) => forall|i: int|
            0 <= i < inner.body.properties@.len() && inner.body.properties@[i].listed ==> (
            #[trigger] inner.body.properties@[i]).read is Ok,
        Ok(value) => stands_for_none(value),
        Err(_) => false,
    }
}

/// A frame can be read off the object.
pub open spec fn is_readable(object: Object) -> bool {
    forall|name: Seq<char>, found: Option<Property>| #[trigger]
        finds(object.body.properties@, name, found) ==> {
            &&& name == "functionName"@ ==> has_text(found)
            &&& name == "fileName"@ ==> has_text(found)
            &&& name == "lineNumber"@ ==> has_integer(found)
            &&& name == "columnNumber"@ ==> has_integer(found)
            &&& name == "native"@ ==> has_flag(found)
            &&& name == "locals"@ ==> has_variables(found)
        }
}

/// The property reads as that text, or as none.
pub open spec fn shows_text(found: Option<Property>, text: Option<String>) -> bool {
    match found {
        None => text is None,
        Some(property) => match property.read {
            Ok(Value::String(held)) => text matches Some(text) && text@ == held@,
            Ok(Value::Bool(held)) => text matches Some(text) && text@ == (if held {
                "true"@
            } else {
                "false"@
            }),
            Ok(Value::Int(n)) => text matches Some(text) && writes_integer(text@, n as int),
            Ok(Value::Other(other)) => {
                &&& text matches Some(text)
                &&& other.text matches Ok(given)
                &&& text@ == given@
            },
            Ok(Value::Object(_)) => {
                &&& text matches Some(text)
                &&& property.text matches Ok(given)
                &&& text@ == given@
            },
            Ok(_) => text is None,
            Err(_) => false,
        },
    }
}

/// The place is that number, or none where the number is negative.
pub open spec fn is_place(number: i32, place: Option<u32>) -> bool {
    if number >= 0 {
        place matches Some(place) && place == number
    } else {
        place is None
    }
}

/// The property reads as that place, or as none.
pub open spec fn shows_place(found: Option<Property>, place: Option<u32>) -> bool {
    match found {
        None => place is None,
        Some(property) => match property.read {
            Ok(Value::Int(number)) => is_place(number, place),
            Ok(Value::Other(other)) => other.integer matches Some(number) && is_place(
                number,
                place,
            ),
            Ok(_) => place is None,
            Err(_) => false,
        },
    }
}

/// The property is the flag `true`, or it is not.
pub open spec fn shows_flag(found: Option<Property>, flag: bool) -> bool {
    flag <==> (found matches Some(property) && property.read == Ok::<Value, Failure>(
        Value::Bool(true),
    ))
}

/// `i` is the index of the last listed property of that name.
pub open spec fn is_last_listed(properties: Seq<Property>, name: Seq<char>, i: int) -> bool {
    &&& 0 <= i < properties.len()
    &&& properties[i].listed
    &&& properties[i].name@ == name
    &&& forall|j: int|
        i < j < properties.len() && properties[j].listed ==> (#[trigger] properties[j]).name@
            != name
}

/// The variables are the names of the listed properties, each with what the last one of
/// that name reads as.
pub open spec fn lists(properties: Seq<Property>, variables: Map<Seq<char>, Value>) -> bool {
    &&& forall|name: Seq<char>, i: int| #[trigger]
        is_last_listed(properties, name, i) ==> {
            &&& variables.dom().contains(name)
            &&& properties[i].read == Ok::<Value, Failure>(variables[name])
        }
    &&& forall|name: Seq<char>| #[trigger]
        variables.dom().contains(name) ==> exists|i: int| is_last_listed(properties, name, i)
}

/// The property is an object that lists those variables, or there are none.
pub open spec fn shows_variables(
    found: Option<Property>,
    variables: Map<Seq<char>, Value>,
) -> bool {
    match found {
        Some(property) => match property.read {
            Ok(Value::Object(inner)) => lists(inner.body.properties@, variables),
            Ok(_) => variables.dom().is_empty(),
            Err(_) => false,
        },
        None => variables.dom().is_empty(),
    }
}

/// Each part of the frame is what the property of its own name reads as.
pub open spec fn describes(object: Object, frame: Frame) -> bool {
    forall|name: Seq<char>, found: Option<Property>| #[trigger]
        finds(object.body.properties@, name, found) ==> {
            &&& name == "functionName"@ ==> shows_text(found, frame.function_name)
            &&& name == "fileName"@ ==> shows_text(found, frame.file_name)
            &&& name == "lineNumber"@ ==> shows_place(found, frame.line_number)
            &&& name == "columnNumber"@ ==> shows_place(found, frame.column_number)
            &&& name == "native"@ ==> shows_flag(found, frame.native)
            &&& name == "locals"@ ==> shows_variables(found, frame.locals@)
        }
}

proof fn lemma_last_listed(properties: Seq<Property>, i: int)
    requires
        0 <= i < properties.len(),
        properties[i].listed,
    ensures
        exists|k: int| #[trigger] is_last_listed(properties, properties[i].name@, k),
    decreases properties.len() - i,
{
    let name = properties[i].name@;
    if !is_last_listed(properties, name, i) {
        let j = choose|j: int|
            i < j < properties.len() && properties[j].listed && (
            #[trigger] properties[j]).name@ == name;
        lemma_last_listed(properties, j);
    }
}

proof fn lemma_lists(properties: Seq<Property>)
    requires
        frame::locals_of(properties) is Ok,
    ensures
        lists(properties, frame::locals_of(properties)->Ok_0),
{
    let variables = frame::locals_of(properties)->Ok_0;
    assert forall|name: Seq<char>, i: int| #[trigger]
        is_last_listed(properties, name, i) implies {
        &&& variables.dom().contains(name)
        &&& properties[i].read == Ok::<Value, Failure>(variables[name])
    } by {
        frame::law_listed_properties_are_locals(properties, i);
    }
    assert forall|name: Seq<char>| #[trigger] variables.dom().contains(name) implies exists|
        i: int,
    | is_last_listed(properties, name, i) by {
        frame::law_locals_are_listed_properties(properties, name);
        let i = choose|i: int|
            0 <= i < properties.len() && properties[i].listed && #[trigger] properties[i].name@
                == name;
        lemma_last_listed(properties, i);
    }
}

proof fn lemma_shows_text(object: Object, name: Seq<char>, found: Option<Property>)
    requires
        object::lookup(object.body.properties@, name) == found,
    ensures
        object::text_at(object, name) is Ok <==> has_text(found),
        forall|text: Option<String>|
            object::text_at(object, name) == Ok::<Option<Seq<char>>, Failure>(
                #[trigger] convert::text_view(text),
            ) ==> shows_text(found, text),
{
    if let Some(property) = found {
        if let Ok(Value::Int(n)) = property.read {
            lemma_decimal(n as int);
        }
    }
}

proof fn lemma_describes(object: Object, frame: Frame)
    requires
        frame::frame_of(object) == Ok::<frame::FrameView, Failure>(frame@),
    ensures
        describes(object, frame),
{
    assert forall|name: Seq<char>, found: Option<Property>| #[trigger]
        finds(object.body.properties@, name, found) implies {
        &&& name == "functionName"@ ==> shows_text(found, frame.function_name)
        &&& name == "fileName"@ ==> shows_text(found, frame.file_name)
        &&& name == "lineNumber"@ ==> shows_place(found, frame.line_number)
        &&& name == "columnNumber"@ ==> shows_place(found, frame.column_number)
        &&& name == "native"@ ==> shows_flag(found, frame.native)
        &&& name == "locals"@ ==> shows_variables(found, frame.locals@)
    } by {
        lemma_finds(object.body.properties@, name, found);
        lemma_shows_text(object, name, found);
        if name == "locals"@ {
            if let Some(property) = found {
                if let Ok(Value::Object(inner)) = property.read {
                    lemma_lists(inner.body.properties@);
                }
            }
        }
    }
}

proof fn lemma_readable(object: Object)
    ensures
        frame::frame_of(object) is Ok <==> is_readable(object),
{
    let properties = object.body.properties@;
    let function_name = object::lookup(properties, "functionName"@);
    let file_name = object::lookup(properties, "fileName"@);
    let line = object::lookup(properties, "lineNumber"@);
    let column = object::lookup(properties, "columnNumber"@);
    let native = object::lookup(properties, "native"@);
    let locals = object::lookup(properties, "locals"@);
    lemma_finds(properties, "functionName"@, function_name);
    lemma_finds(properties, "fileName"@, file_name);
    lemma_finds(properties, "lineNumber"@, line);
    lemma_finds(properties, "columnNumber"@, column);
    lemma_finds(properties, "native"@, native);
    lemma_finds(properties, "locals"@, locals);
    lemma_shows_text(object, "functionName"@, function_name);
    lemma_shows_text(object, "fileName"@, file_name);
    if let Some(property) = locals {
        if let Ok(Value::Object(inner)) = property.read {
            frame::law_locals_need_every_listed_property(inner.body.properties@);
        }
    }
    if frame::frame_of(object) is Ok {
        assert forall|name: Seq<char>, found: Option<Property>| #[trigger]
            finds(properties, name, found) implies {
            &&& name == "functionName"@ ==> has_text(found)
            &&& name == "fileName"@ ==> has_text(found)
            &&& name == "lineNumber"@ ==> has_integer(found)
            &&& name == "columnNumber"@ ==> has_integer(found)
            &&& name == "native"@ ==> has_flag(found)
            &&& name == "locals"@ ==> has_variables(found)
        } by {
            lemma_finds(properties, name, found);
        }
    }
}

/// A frame is read off an object exactly where each of its properties can be read, and each
/// part of it is what the property of its own name reads as, whatever the others are.
pub proof fn law_frame_parts_are_properties(object: Object, result: Result<Frame, Failure>)
    requires
        call_ensures(parse_frame, (&object,), result),
    ensures
        result is Ok <==> is_readable(object),
        result matches Ok(frame) ==> describes(object, frame),
{
    lemma_readable(object);
    if let Ok(frame) = result {
        lemma_describes(object, frame);
    }
}

/// The line and the column of a frame are the numbers that the object gives under
/// `lineNumber` and under `columnNumber`, and none where it gives none or a negative one.
pub proof fn law_frame_places_are_their_own(
    object: Object,
    frame: Frame,
    line: Option<Property>,
    column: Option<Property>,
)
    requires
        call_ensures(parse_frame, (&object,), Ok::<Frame, Failure>(frame)),
        finds(object.body.properties@, "lineNumber"@, line),
        finds(object.body.properties@, "columnNumber"@, column),
    ensures
        line is None ==> frame.line_number is None,
        line matches Some(property) ==> (property.read matches Ok(Value::Int(n)) ==> {
            &&& n >= 0 ==> (frame.line_number matches Some(place) && place == n)
            &&& n < 0 ==> frame.line_number is None
        }),
        line matches Some(property) ==> (property.read matches Ok(value) ==> (stands_for_none(
            value,
        ) ==> frame.line_number is None)),
        column is None ==> frame.column_number is None,
        column matches Some(property) ==> (property.read matches Ok(Value::Int(n)) ==> {
            &&& n >= 0 ==> (frame.column_number matches Some(place) && place == n)
            &&& n < 0 ==> frame.column_number is None
        }),
        column matches Some(property) ==> (property.read matches Ok(value) ==> (stands_for_none(
            value,
        ) ==> frame.column_number is None)),
{
    law_frame_parts_are_properties(object, Ok(frame));
}

/// A frame holds what reading the properties of its object gives, and where one of those
/// reads fails, taken in turn, it is that failure.
pub proof fn law_frame_is_its_reads(
    object: Object,
    function_name: Result<Option<String>, Failure>,
    file_name: Result<Option<String>, Failure>,
    line: Result<Option<i32>, Failure>,
    column: Result<Option<i32>, Failure>,
    native: Result<Option<bool>, Failure>,
    locals: Result<Option<Object>, Failure>,
    result: Result<Frame, Failure>,
)
    requires
        call_ensures(Object::get_text, (&object, "functionName"), function_name),
        call_ensures(Object::get_text, (&object, "fileName"), file_name),
        call_ensures(Object::get_int, (&object, "lineNumber"), line),
        call_ensures(Object::get_int, (&object, "columnNumber"), column),
        call_ensures(Object::get_bool, (&object, "native"), native),
        call_ensures(Object::get_object, (&object, "locals"), locals),
        call_ensures(parse_frame, (&object,), result),
    ensures
        function_name matches Err(failure) ==> result == Err::<Frame, Failure>(failure),
        function_name is Ok ==> (file_name matches Err(failure) ==> result == Err::<
            Frame,
            Failure,
        >(failure)),
        function_name is Ok && file_name is Ok ==> (line matches Err(failure) ==> result == Err::<
            Frame,
            Failure,
        >(failure)),
        function_name is Ok && file_name is Ok && line is Ok ==> (column matches Err(failure)
            ==> result == Err::<Frame, Failure>(failure)),
        function_name is Ok && file_name is Ok && line is Ok && column is Ok ==> (
        native matches Err(failure) ==> result == Err::<Frame, Failure>(failure)),
        function_name is Ok && file_name is Ok && line is Ok && column is Ok && native is Ok ==> (
        locals matches Err(failure) ==> result == Err::<Frame, Failure>(failure)),
        function_name is Ok && file_name is Ok && line is Ok && column is Ok && native is Ok
            && (locals matches Ok(None)) ==> result is Ok,
        result matches Ok(frame) ==> {
            &&& match function_name->Ok_0 {
                Some(text) => frame.function_name matches Some(held) && held@ == text@,
                None => frame.function_name is None,
            }
            &&& match file_name->Ok_0 {
                Some(text) => frame.file_name matches Some(held) && held@ == text@,
                None => frame.file_name is None,
            }
            &&& match line->Ok_0 {
                Some(number) => is_place(number, frame.line_number),
                None => frame.line_number is None,
            }
            &&& match column->Ok_0 {
                Some(number) => is_place(number, frame.column_number),
                None => frame.column_number is None,
            }
            &&& frame.native <==> native->Ok_0 == Some(true)
            &&& match locals->Ok_0 {
                Some(inner) => lists(inner.body.properties@, frame.locals@),
                None => frame.locals@.dom().is_empty(),
            }
        },
{
    if result is Ok {
        if let Ok(Some(inner)) = locals {
            lemma_lists(inner.body.properties@);
        }
    }
}

/// Where a listed variable of a frame object cannot be read and nothing before it fails,
/// that is the failure.
pub proof fn law_frame_fails_with_its_variable(
    object: Object,
    function_name: Result<Option<String>, Failure>,
    file_name: Result<Option<String>, Failure>,
    line: Result<Option<i32>, Failure>,
    column: Result<Option<i32>, Failure>,
    native: Result<Option<bool>, Failure>,
    inner: Object,
    i: int,
    result: Result<Frame, Failure>,
)
    requires
        call_ensures(Object::get_text, (&object, "functionName"), function_name),
        call_ensures(Object::get_text, (&object, "fileName"), file_name),
        call_ensures(Object::get_int, (&object, "lineNumber"), line),
        call_ensures(Object::get_int, (&object, "columnNumber"), column),
        call_ensures(Object::get_bool, (&object, "native"), native),
        function_name is Ok,
        file_name is Ok,
        line is Ok,
        column is Ok,
        native is Ok,
        call_ensures(
            Object::get_object,
            (&object, "locals"),
            Ok::<Option<Object>, Failure>(Some(inner)),
        ),
        0 <= i < inner.body.properties@.len(),
        inner.body.properties@[i].listed,
        inner.body.properties@[i].read is Err,
        forall|j: int|
            0 <= j < i && inner.body.properties@[j].listed ==> (
            #[trigger] inner.body.properties@[j]).read is Ok,
        call_ensures(parse_frame, (&object,), result),
    ensures
        result == Err::<Frame, Failure>(inner.body.properties@[i].read->Err_0),
{
    lemma_first_unreadable(inner.body.properties@, i);
}

proof fn lemma_first_unreadable(properties: Seq<Property>, i: int)
    requires
        0 <= i < properties.len(),
        properties[i].listed,
        properties[i].read is Err,
        forall|j: int|
            0 <= j < i && properties[j].listed ==> (#[trigger] properties[j]).read is Ok,
    ensures
        frame::locals_of(properties) == Err::<Map<Seq<char>, Value>, Failure>(
            properties[i].read->Err_0,
        ),
    decreases properties.len(),
{
    let front = properties.drop_last();
    if i == properties.len() - 1 {
        frame::law_locals_need_every_listed_property(front);
        assert forall|j: int| 0 <= j < front.len() && front[j].listed implies (
        #[trigger] front[j]).read is Ok by {
            assert(front[j] == properties[j]);
        }
    } else {
        assert forall|j: int| 0 <= j < i && front[j].listed implies (
        #[trigger] front[j]).read is Ok by {
            assert(front[j] == properties[j]);
        }
        lemma_first_unreadable(front, i);
    }
}

/// The variables of a frame, of a named function and of an anonymous one alike, are the
/// listed properties of the object under `locals`, where its names are distinct: a name is
/// a variable exactly where it is listed, with the value that it reads as.
pub proof fn law_frame_variables_are_what_is_listed(
    object: Object,
    frame: Frame,
    property: Property,
    inner: Object,
    name: Seq<char>,
    found: Option<Property>,
)
    requires
        call_ensures(parse_frame, (&object,), Ok::<Frame, Failure>(frame)),
        finds(object.body.properties@, "locals"@, Some(property)),
        property.read == Ok::<Value, Failure>(Value::Object(inner)),
        forall|i: int, j: int|
            0 <= i < j < inner.body.properties@.len() ==> (
            #[trigger] inner.body.properties@[i]).name@ != (
            #[trigger] inner.body.properties@[j]).name@,
        finds(inner.body.properties@, name, found),
    ensures
        frame.locals@.dom().contains(name) <==> (found matches Some(variable) && variable.listed),
        frame.locals@.dom().contains(name) ==> found->0.read == Ok::<Value, Failure>(
            frame.locals@[name],
        ),
{
    law_frame_parts_are_properties(object, Ok(frame));
    lemma_distinct_lists(inner.body.properties@, frame.locals@, name, found);
}

proof fn lemma_distinct_lists(
    properties: Seq<Property>,
    variables: Map<Seq<char>, Value>,
    name: Seq<char>,
    found: Option<Property>,
)
    requires
        lists(properties, variables),
        forall|i: int, j: int|
            0 <= i < j < properties.len() ==> (#[trigger] properties[i]).name@ != (
            #[trigger] properties[j]).name@,
        finds(properties, name, found),
    ensures
        variables.dom().contains(name) <==> (found matches Some(variable) && variable.listed),
        variables.dom().contains(name) ==> found->0.read == Ok::<Value, Failure>(
            variables[name],
        ),
{
    if let Some(variable) = found {
        let i = choose|i: int|
            #[trigger] is_first(properties, name, i) && properties[i] == variable;
        if variable.listed {
            assert(is_last_listed(properties, name, i));
        }
        if variables.dom().contains(name) {
            let k = choose|k: int| is_last_listed(properties, name, k);
            assert(properties[k].name@ == properties[i].name@);
            assert(k == i);
        }
    } else if variables.dom().contains(name) {
        let k = choose|k: int| is_last_listed(properties, name, k);
        assert(properties[k].name@ == name);
    }
}

/// How many of the captured entries a request for so many frames is about. The engine
/// counts in 32 bits.
pub open spec fn asked(entries: Seq<Result<Value, Failure>>, depth: Option<usize>) -> int {
    match depth {
        Some(depth) => if depth <= entries.len() && depth <= 0x7fff_ffff {
            depth as int
        } else if 0x7fff_ffff <= entries.len() && 0x7fff_ffff <= depth {
            0x7fff_ffff
        } else {
            entries.len() as int
        },
        None => entries.len() as int,
    }
}

/// A frame can be read off the captured entry.
pub open spec fn is_readable_entry(entry: Result<Value, Failure>) -> bool {
    entry matches Ok(Value::Object(object)) && is_readable(object)
}

proof fn lemma_asked(entries: Seq<Result<Value, Failure>>, depth: Option<usize>)
    ensures
        0 <= asked(entries, depth) <= entries.len(),
        frame::first(entries, frame::limit_of(depth)) == entries.take(asked(entries, depth)),
{
    assert(entries.take(entries.len() as int) =~= entries);
}

proof fn lemma_entries(entries: Seq<Result<Value, Failure>>, len: int)
    requires
        0 <= len <= entries.len(),
    ensures
        frame::frames_of(entries.take(len)) is Ok <==> forall|i: int|
            0 <= i < len ==> is_readable_entry(#[trigger] entries[i]),
        frame::frames_of(entries.take(len)) matches Ok(views) ==> {
            &&& views.len() == len
            &&& forall|i: int|
                0 <= i < len ==> {
                    &&& #[trigger] entries[i] matches Ok(Value::Object(object))
                    &&& frame::frame_of(object) == Ok::<frame::FrameView, Failure>(views[i])
                }
        },
{
    let part = entries.take(len);
    frame::law_frames_are_one_for_one(part);
    assert forall|i: int| 0 <= i < len implies (frame::entry_frame(#[trigger] entries[i])
        is Ok <==> is_readable_entry(entries[i])) by {
        if let Ok(Value::Object(object)) = entries[i] {
            lemma_readable(object);
        }
    }
    if frame::frames_of(part) is Ok {
        assert forall|i: int| 0 <= i < len implies is_readable_entry(#[trigger] entries[i]) by {
            assert(frame::entry_frame(part[i]) is Ok);
        }
        assert forall|i: int| 0 <= i < len implies {
            &&& #[trigger] entries[i] matches Ok(Value::Object(object))
            &&& frame::frame_of(object) == Ok::<frame::FrameView, Failure>(
                frame::frames_of(part)->Ok_0[i],
            )
        } by {
            assert(is_readable_entry(entries[i]));
            assert(frame::entry_frame(part[i]) is Ok);
        }
    } else {
        let i = choose|i: int| 0 <= i < part.len() && frame::entry_frame(#[trigger] part[i]) is Err;
        assert(!is_readable_entry(entries[i]));
    }
}

/// The frames of an error are one for each captured entry, in order, as many as were asked
/// for, and each is what its own entry describes. There are none where nothing was captured.
/// Where an entry that is asked for cannot be read, or the engine fails, there is an error.
pub proof fn law_frames_are_the_captured_entries(
    exception: Exception,
    ctx: &mut Ctx,
    depth: Option<usize>,
    result: Result<Vec<Frame>, Error>,
)
    requires
        call_ensures(Exception::frames, (&exception, ctx, depth), result),
    ensures
        exception@.body.trace is Absent ==> {
            &&& result matches Ok(frames) && frames@.len() == 0
            &&& *final(ctx) == *old(ctx)
        },
        exception@.body.trace matches Trace::Fails(failure) ==> {
            &&& result matches Err(error) && answers(error, failure)
            &&& reports(*old(ctx), *final(ctx), failure)
        },
        exception@.body.trace matches Trace::Captured(entries) ==> {
            &&& result is Ok <==> forall|i: int|
                0 <= i < asked(entries@, depth) ==> is_readable_entry(#[trigger] entries@[i])
            &&& result matches Ok(frames) ==> {
                &&& frames@.len() == asked(entries@, depth)
                &&& forall|i: int|
                    0 <= i < frames@.len() ==> {
                        &&& entries@[i] matches Ok(Value::Object(object))
                        &&& describes(object, #[trigger] frames@[i])
                    }
                &&& *final(ctx) == *old(ctx)
            }
        },
{
    if let Ok(frames) = result {
        assert(frame::frame_views(frames@).len() == frames@.len());
    }
    if let Trace::Captured(entries) = exception@.body.trace {
        let len = asked(entries@, depth);
        lemma_asked(entries@, depth);
        lemma_entries(entries@, len);
        if let Ok(frames) = result {
            let views = frame::frame_views(frames@);
            assert forall|i: int| 0 <= i < frames@.len() implies {
                &&& entries@[i] matches Ok(Value::Object(object))
                &&& describes(object, #[trigger] frames@[i])
            } by {
                assert(views[i] == frames@[i]@);
                if let Ok(Value::Object(object)) = entries@[i] {
                    lemma_describes(object, frames@[i]);
                }
            }
        }
    }
}

/// Where the first so many frames can be had and the next entry cannot be read, asking for
/// more fails with what is wrong with that entry.
pub proof fn law_frames_fail_with_the_first_bad_entry(
    exception: Exception,
    first_ctx: &mut Ctx,
    count: usize,
    front: Vec<Frame>,
    entry: Result<Value, Failure>,
    ctx: &mut Ctx,
    depth: Option<usize>,
    result: Result<Vec<Frame>, Error>,
)
    requires
        call_ensures(
            Exception::frames,
            (&exception, first_ctx, Some(count)),
            Ok::<Vec<Frame>, Error>(front),
        ),
        exception@.body.trace matches Trace::Captured(entries) && count < asked(entries@, depth)
            && entries@[count as int] == entry,
        count <= 0x7fff_ffff,
        !is_readable_entry(entry),
        call_ensures(Exception::frames, (&exception, ctx, depth), result),
    ensures
        entry matches Err(failure) ==> {
            &&& result matches Err(error) && answers(error, failure)
            &&& reports(*old(ctx), *final(ctx), failure)
        },
        entry matches Ok(value) ==> (!(value is Object) ==> {
            &&& result matches Err(Error::FromJs { from, to })
            &&& to is Object
            &&& forall|kind: Type| #[trigger]
                call_ensures(Value::type_of, (&value,), kind) ==> from == kind
            &&& *final(ctx) == *old(ctx)
        }),
        entry matches Ok(Value::Object(object)) ==> forall|frame: Result<Frame, Failure>|
            #[trigger] call_ensures(parse_frame, (&object,), frame) ==> {
                &&& frame matches Err(failure)
                &&& result matches Err(error) && answers(error, failure)
                &&& reports(*old(ctx), *final(ctx), failure)
            },
{
    if let Trace::Captured(entries) = exception@.body.trace {
        lemma_asked(entries@, Some(count));
        lemma_asked(entries@, depth);
        lemma_entries(entries@, count as int);
        let part = entries@.take(asked(entries@, depth));
        if let Ok(Value::Object(object)) = entry {
            lemma_readable(object);
        }
        assert forall|j: int| 0 <= j < count implies frame::entry_frame(#[trigger] part[j])
            is Ok by {
            assert(is_readable_entry(entries@[j]));
            if let Ok(Value::Object(object)) = entries@[j] {
                lemma_readable(object);
            }
        }
        assert(part[count as int] == entry);
        frame::law_first_failure_counts(part, count as int);
    }
}

/// The two frames say the same.
pub open spec fn same_frame(first: Frame, second: Frame) -> bool {
    &&& match first.function_name {
        Some(text) => second.function_name matches Some(other) && other@ == text@,
        None => second.function_name is None,
    }
    &&& match first.file_name {
        Some(text) => second.file_name matches Some(other) && other@ == text@,
        None => second.file_name is None,
    }
    &&& first.line_number == second.line_number
    &&& first.column_number == second.column_number
    &&& first.native == second.native
    &&& first.locals@ == second.locals@
}

/// A copy of a frame says what the frame says.
pub proof fn law_frame_copies_are_the_same(frame: Frame, copy: Frame)
    requires
        call_ensures(Frame::clone, (&frame,), copy),
    ensures
        same_frame(frame, copy),
{
    assert(frame@ == copy@);
}

spec fn trace_of(object: Object) -> Trace {
    object.body.trace
}

/// Asking for fewer frames gives the beginning of what asking for more gives.
pub proof fn law_fewer_frames_are_a_beginning(
    exception: Exception,
    first_ctx: &mut Ctx,
    less: usize,
    few: Result<Vec<Frame>, Error>,
    ctx: &mut Ctx,
    more: Option<usize>,
    many: Vec<Frame>,
)
    requires
        call_ensures(Exception::frames, (&exception, first_ctx, Some(less)), few),
        call_ensures(Exception::frames, (&exception, ctx, more), Ok::<Vec<Frame>, Error>(many)),
        more matches Some(more) ==> less <= more,
    ensures
        few matches Ok(few) && {
            &&& few@.len() <= less
            &&& few@.len() <= many@.len()
            &&& few@.len() == less || few@.len() == many@.len() || few@.len() == 0x7fff_ffff
            &&& forall|i: int|
                0 <= i < few@.len() ==> same_frame(#[trigger] few@[i], many@[i])
        },
{
    frame::law_depth_gives_a_beginning(
        trace_of(exception@),
        frame::limit_of(Some(less)),
        frame::limit_of(more),
    );
    let few = few->Ok_0;
    let few_views = frame::frame_views(few@);
    let many_views = frame::frame_views(many@);
    assert(few_views.len() == few@.len());
    assert(many_views.len() == many@.len());
    assert forall|i: int| 0 <= i < few@.len() implies same_frame(#[trigger] few@[i], many@[i]) by {
        assert(few_views[i] == few@[i]@);
        assert(many_views[i] == many@[i]@);
    }
}

/// The variables of an error are those of the frame that is asked for alone, or none where
/// there is no frame, and they fail where that does.
pub proof fn law_locals_are_those_of_the_innermost_frame(
    exception: Exception,
    first_ctx: &mut Ctx,
    frames: Result<Vec<Frame>, Error>,
    ctx: &mut Ctx,
    result: Result<Locals, Error>,
)
    requires
        *old(first_ctx) == *old(ctx),
        call_ensures(Exception::frames, (&exception, first_ctx, Some(1)), frames),
        call_ensures(Exception::locals, (&exception, ctx), result),
    ensures
        frames matches Ok(frames) ==> {
            &&& result matches Ok(locals) && locals@ == (if frames@.len() > 0 {
                frames@[0].locals@
            } else {
                Map::empty()
            })
        },
        frames matches Err(error) ==> result == Err::<Locals, Error>(error),
        *final(first_ctx) == *final(ctx),
{
    if let Ok(frames) = frames {
        let views = frame::frame_views(frames@);
        if frames@.len() > 0 {
            assert(views[0] == frames@[0]@);
        }
    }
}

/// The variables of an error are the listed properties of the object under `locals` of the
/// first captured entry, whatever else the entry holds. Where its names are distinct, a name
/// is a variable exactly where it is listed, with the value that it reads as.
pub proof fn law_locals_are_what_the_first_entry_lists(
    exception: Exception,
    ctx: &mut Ctx,
    result: Result<Locals, Error>,
    entries: Seq<Result<Value, Failure>>,
    object: Object,
    found: Option<Property>,
    name: Seq<char>,
    variable: Option<Property>,
)
    requires
        call_ensures(Exception::locals, (&exception, ctx), result),
        exception@.body.trace matches Trace::Captured(captured) && captured@ == entries,
        entries.len() > 0,
        entries[0] == Ok::<Value, Failure>(Value::Object(object)),
        finds(object.body.properties@, "locals"@, found),
    ensures
        result is Ok <==> is_readable(object),
        result matches Ok(locals) ==> shows_variables(found, locals@),
        result matches Ok(locals) ==> (found matches Some(property) ==> (
        property.read matches Ok(Value::Object(inner)) ==> ({
            &&& finds(inner.body.properties@, name, variable)
            &&& forall|i: int, j: int|
                0 <= i < j < inner.body.properties@.len() ==> (
                #[trigger] inner.body.properties@[i]).name@ != (
                #[trigger] inner.body.properties@[j]).name@
        } ==> {
            &&& locals@.dom().contains(name) <==> (variable matches Some(variable)
                && variable.listed)
            &&& locals@.dom().contains(name) ==> variable->0.read == Ok::<Value, Failure>(
                locals@[name],
            )
        }))),
{
    let part = frame::first(entries, 1);
    assert(part =~= entries.take(1));
    lemma_entries(entries, 1);
    lemma_readable(object);
    assert(entries[0] == Ok::<Value, Failure>(Value::Object(object)));
    if is_readable(object) {
        assert(is_readable_entry(entries[0]));
    }
    if let Ok(locals) = result {
        lemma_finds(object.body.properties@, "locals"@, found);
        if let Some(property) = found {
            if let Ok(Value::Object(inner)) = property.read {
                let properties = inner.body.properties@;
                lemma_lists(properties);
                if finds(properties, name, variable) && forall|i: int, j: int|
                    0 <= i < j < properties.len() ==> (#[trigger] properties[i]).name@ != (
                    #[trigger] properties[j]).name@ {
                    lemma_distinct_lists(properties, locals@, name, variable);
                }
            }
        }
    }
}

/// An error with which no frame was captured has no variables.
pub proof fn law_no_frame_has_no_locals(
    exception: Exception,
    ctx: &mut Ctx,
    result: Result<Locals, Error>,
)
    requires
        call_ensures(Exception::locals, (&exception, ctx), result),
        exception@.body.trace is Absent || (exception@.body.trace matches Trace::Captured(entries)
            && entries@.len() == 0),
    ensures
        result matches Ok(locals) && locals@.dom().is_empty(),
        *final(ctx) == *old(ctx),
{
}

/// The number of frames to ask the engine for is the depth, as far as 32 bits hold it, and
/// negative where all are asked for.
pub proof fn law_frame_limit_is_the_depth(depth: Option<usize>, limit: i32)
    requires
        call_ensures(frame_limit, (depth,), limit),
    ensures
        depth is None <==> limit < 0,
        depth matches Some(depth) ==> {
            &&& depth <= 0x7fff_ffff ==> limit == depth
            &&& depth > 0x7fff_ffff ==> limit == 0x7fff_ffff
        },
{
}

/// The engine answers with the first so many of the captured entries, or with all of them
/// where the limit is negative.
pub proof fn law_engine_answers_with_the_first_entries(
    object: Object,
    limit: i32,
    answer: Result<Option<&[Result<Value, Failure>]>, Failure>,
)
    requires
        call_ensures(Object::error_frames, (&object, limit), answer),
    ensures
        object.body.trace is Absent ==> answer matches Ok(None),
        object.body.trace matches Trace::Fails(failure) ==> (answer matches Err(given)
            && given == failure),
        object.body.trace matches Trace::Captured(entries) ==> (answer matches Ok(Some(part)) && {
            &&& part@.len() <= entries@.len()
            &&& limit < 0 ==> part@.len() == entries@.len()
            &&& limit >= 0 ==> part@.len() <= limit
            &&& limit >= 0 ==> part@.len() == limit || part@.len() == entries@.len()
            &&& forall|i: int| 0 <= i < part@.len() ==> #[trigger] part@[i] == entries@[i]
        }),
{
}

/// The frames in an answer of the engine are one for each entry, in order, each what its
/// own entry describes, and they can be had exactly where every entry can be read.
pub proof fn law_answer_gives_a_frame_for_each_entry(
    answer: Option<&[Result<Value, Failure>]>,
    result: Result<Vec<Frame>, Failure>,
)
    requires
        call_ensures(parse_frames, (answer,), result),
    ensures
        answer is None ==> (result matches Ok(frames) && frames@.len() == 0),
        answer matches Some(entries) ==> {
            &&& result is Ok <==> forall|i: int|
                0 <= i < entries@.len() ==> is_readable_entry(#[trigger] entries@[i])
            &&& result matches Ok(frames) ==> {
                &&& frames@.len() == entries@.len()
                &&& forall|i: int|
                    0 <= i < frames@.len() ==> {
                        &&& entries@[i] matches Ok(Value::Object(object))
                        &&& describes(object, #[trigger] frames@[i])
                    }
            }
        },
{
    if let Ok(frames) = result {
        assert(frame::frame_views(frames@).len() == frames@.len());
    }
    if let Some(entries) = answer {
        assert(entries@.take(entries@.len() as int) =~= entries@);
        lemma_entries(entries@, entries@.len() as int);
        if let Ok(frames) = result {
            let views = frame::frame_views(frames@);
            assert forall|i: int| 0 <= i < frames@.len() implies {
                &&& entries@[i] matches Ok(Value::Object(object))
                &&& describes(object, #[trigger] frames@[i])
            } by {
                assert(views[i] == frames@[i]@);
                if let Ok(Value::Object(object)) = entries@[i] {
                    lemma_describes(object, frames@[i]);
                }
            }
        }
    }
}

/// The text is what the engine takes over of a message: a beginning of it, of at most 255
/// bytes of UTF-8 and without a NUL, that goes on until the message ends, a NUL comes or
/// the next character does not fit.
pub open spec fn takes_over(message: Seq<char>, text: Seq<char>) -> bool {
    let len = text.len() as int;
    &&& len <= message.len()
    &&& text == message.take(len)
    &&& encode_utf8(text).len() <= 255
    &&& !text.contains('\0')
    &&& len < message.len() ==> message[len] == '\0' || encode_utf8(message.take(len + 1)).len()
        > 255
}

proof fn lemma_before_nul_stops(text: Seq<char>)
    ensures
        text::before_nul(text).len() <= text.len(),
        text::before_nul(text) == text.take(text::before_nul(text).len() as int),
        text::before_nul(text).len() < text.len() ==> text[text::before_nul(text).len() as int]
            == '\0',
    decreases text.len(),
{
    let kept = text::before_nul(text);
    if text.len() > 0 && text[0] != '\0' {
        let tail = text.drop_first();
        lemma_before_nul_stops(tail);
        assert(kept =~= text.take(kept.len() as int));
    } else {
        assert(kept =~= text.take(0));
    }
}

proof fn lemma_takes_over(message: Seq<char>)
    ensures
        takes_over(message, text::native_text(message)),
{
    let kept = text::fitting_prefix(message, 255);
    let text = text::native_text(message);
    let len = text.len() as int;
    text::law_native_text_is_a_beginning(message);
    text::law_fitting_prefix_is_longest(message, 255);
    lemma_before_nul_stops(kept);
    assert(text =~= message.take(len));
    if len < message.len() && len == kept.len() {
        assert(message.take(len + 1).len() == len + 1);
    }
}

/// The text that a truncation keeps of some bytes is a beginning of them that is no longer
/// than `max`, that is all of them where they fit, and that else ends just before the last
/// byte up to there that a character can start with.
pub proof fn law_truncation_cuts_before_a_character(max: usize, bytes: &[u8], prefix: &[u8])
    requires
        call_ensures(truncate_str, (max, bytes), prefix),
    ensures
        prefix@.len() <= bytes@.len(),
        prefix@.len() <= max,
        forall|i: int| 0 <= i < prefix@.len() ==> #[trigger] prefix@[i] == bytes@[i],
        bytes@.len() <= max ==> prefix@.len() == bytes@.len(),
        bytes@.len() > max ==> {
            &&& !(0x80 <= bytes@[prefix@.len() as int] <= 0xBF)
            &&& forall|i: int|
                prefix@.len() < i <= max ==> 0x80 <= #[trigger] bytes@[i] <= 0xBF
        },
{
    assert forall|i: int| 0 <= i < prefix@.len() implies #[trigger] prefix@[i] == bytes@[i] by {
        assert(prefix@ == bytes@.take(prefix@.len() as int));
    }
}

/// A text that is cut to so many bytes keeps a beginning of its characters that fits, and as
/// many of them as fit.
pub proof fn law_truncation_keeps_the_characters_that_fit(
    text: Seq<char>,
    max: usize,
    bytes: &[u8],
    prefix: &[u8],
) -> (kept: int)
    requires
        bytes@ == encode_utf8(text),
        call_ensures(truncate_str, (max, bytes), prefix),
    ensures
        0 <= kept <= text.len(),
        prefix@ == encode_utf8(text.take(kept)),
        encode_utf8(text.take(kept)).len() <= max,
        kept < text.len() ==> encode_utf8(text.take(kept + 1)).len() > max,
{
    let kept = text::fitting(text, max as int) as int;
    text::law_cut_keeps_whole_characters(text, max as int, prefix@.len() as int);
    text::law_fitting_prefix_is_longest(text, max as int);
    if kept < text.len() {
        assert(text.take(kept + 1).len() == kept + 1);
    }
    kept
}

/// The buffer that hands a message to the engine holds the characters of it that fit whole
/// into 255 bytes, and zero bytes after them.
pub proof fn law_message_buffer_holds_the_characters_that_fit(
    message: &str,
    buffer: [u8; 256],
) -> (kept: int)
    requires
        call_ensures(c_message, (message,), buffer),
    ensures
        0 <= kept <= message@.len(),
        encode_utf8(message@.take(kept)).len() <= 255,
        kept < message@.len() ==> encode_utf8(message@.take(kept + 1)).len() > 255,
        forall|i: int|
            0 <= i < 256 ==> #[trigger] buffer@[i] == (if i < encode_utf8(
                message@.take(kept),
            ).len() {
                encode_utf8(message@.take(kept))[i]
            } else {
                0u8
            }),
{
    let kept = text::fitting(message@, 255) as int;
    text::law_fitting_prefix_is_longest(message@, 255);
    if kept < message@.len() {
        assert(message@.take(kept + 1).len() == kept + 1);
    }
    kept
}

proof fn lemma_c_bytes_are_before_zero(bytes: Seq<u8>)
    ensures
        text::c_bytes(bytes).len() <= bytes.len(),
        text::c_bytes(bytes) == bytes.take(text::c_bytes(bytes).len() as int),
        text::c_bytes(bytes).len() < bytes.len() ==> bytes[text::c_bytes(bytes).len() as int] == 0,
        forall|i: int|
            0 <= i < text::c_bytes(bytes).len() ==> #[trigger] text::c_bytes(bytes)[i] != 0,
    decreases bytes.len(),
{
    let kept = text::c_bytes(bytes);
    if bytes.len() > 0 && bytes[0] != 0 {
        let rest = bytes.drop_first();
        lemma_c_bytes_are_before_zero(rest);
        assert(kept =~= bytes.take(kept.len() as int));
        assert forall|i: int| 0 <= i < kept.len() implies #[trigger] kept[i] != 0 by {
            if i > 0 {
                assert(kept[i] == text::c_bytes(rest)[i - 1]);
            }
        }
    } else {
        assert(kept =~= bytes.take(0));
    }
}

/// The text of a C string is that of the bytes before the first zero byte, or of all where
/// there is none, and there is none exactly where those are not well-formed.
pub proof fn law_c_text_ends_at_the_first_zero(buffer: &[u8], text: Option<&str>, len: int)
    requires
        call_ensures(c_text, (buffer,), text),
        0 <= len <= buffer@.len(),
        forall|i: int| 0 <= i < len ==> #[trigger] buffer@[i] != 0,
        len < buffer@.len() ==> buffer@[len] == 0,
    ensures
        text is Some <==> valid_utf8(buffer@.take(len)),
        text matches Some(text) ==> text@ == decode_utf8(buffer@.take(len)),
{
    let kept = text::c_bytes(buffer@);
    lemma_c_bytes_are_before_zero(buffer@);
    if kept.len() < len {
        assert(buffer@[kept.len() as int] != 0);
    }
    if len < kept.len() {
        assert(kept[len] == buffer@[len]);
    }
}

/// A message that is put into a buffer and read back is what the engine takes over of it.
pub proof fn law_message_buffer_reads_back(
    message: &str,
    buffer: [u8; 256],
    slice: &[u8],
    text: Option<&str>,
)
    requires
        call_ensures(c_message, (message,), buffer),
        slice@ == buffer@,
        call_ensures(c_text, (slice,), text),
    ensures
        text matches Some(text) && takes_over(message@, text@),
{
    broadcast use group_utf8_lib;

    lemma_takes_over(message@);
}

/// What a throw of a value does: it is pending, in place of what was, and nothing else
/// changes.
pub proof fn law_throw_sets_what_is_pending(ctx: &mut Ctx, value: Value, error: Error)
    requires
        call_ensures(Ctx::throw, (ctx, value), error),
    ensures
        error == Error::Exception,
        final(ctx).pending == Some(value),
        final(ctx).refusal == old(ctx).refusal,
        final(ctx).blank == old(ctx).blank,
        final(ctx).native == old(ctx).native,
        final(ctx).serial == old(ctx).serial,
{
}

/// What is caught is what was thrown, and it is caught once.
pub proof fn law_catch_gives_what_was_thrown(
    first: &mut Ctx,
    value: Value,
    error: Error,
    second: &mut Ctx,
    caught: Option<Value>,
    third: &mut Ctx,
    again: Option<Value>,
)
    requires
        call_ensures(Ctx::throw, (first, value), error),
        *old(second) == *final(first),
        call_ensures(Ctx::catch, (second,), caught),
        *old(third) == *final(second),
        call_ensures(Ctx::catch, (third,), again),
    ensures
        caught == Some(value),
        again is None,
        final(second).refusal == old(first).refusal,
        final(second).blank == old(first).blank,
        final(second).native == old(first).native,
        final(second).serial == old(first).serial,
{
}

/// A catch takes what is pending, and nothing else changes.
pub proof fn law_catch_takes_what_is_pending(ctx: &mut Ctx, value: Option<Value>)
    requires
        call_ensures(Ctx::catch, (ctx,), value),
    ensures
        value == old(ctx).pending,
        final(ctx).pending is None,
        final(ctx).refusal == old(ctx).refusal,
        final(ctx).blank == old(ctx).blank,
        final(ctx).native == old(ctx).native,
        final(ctx).serial == old(ctx).serial,
{
}

/// A failed read that is reported is answered with the error for it, and leaves what the
/// script threw pending.
pub proof fn law_failed_reads_are_reported(ctx: &mut Ctx, failure: Failure, error: Error)
    requires
        call_ensures(Ctx::raise, (ctx, failure), error),
    ensures
        answers(error, failure),
        reports(*old(ctx), *final(ctx), failure),
{
}

/// The engine makes no objects: it was told to refuse, or it ran out of identities.
pub open spec fn refuses(ctx: Ctx) -> bool {
    ctx.refusal is Some || ctx.serial == 0xffff_ffff_ffff_ffff
}

/// The context after the engine made no object: what it leaves pending in that case is
/// pending, and nothing else changed.
pub open spec fn is_refused(before: Ctx, after: Ctx) -> bool {
    &&& before.refusal matches Some(value) ==> after.pending == Some(value)
    &&& before.refusal is None ==> after.pending == Some(Value::Null)
    &&& after.refusal == before.refusal
    &&& after.blank == before.blank
    &&& after.native == before.native
    &&& after.serial == before.serial
}

/// The context after an object was made: the next identity is used up. What is pending is
/// left unsaid.
pub open spec fn is_used_up(before: Ctx, after: Ctx) -> bool {
    &&& after.refusal == before.refusal
    &&& after.blank == before.blank
    &&& after.native == before.native
    &&& after.serial == before.serial + 1
}

/// A new error object has the next identity, the class of a generic error and what the
/// context puts on new errors, and the engine makes it unless it refuses.
pub proof fn law_new_error_is_made_of_the_mould(ctx: &mut Ctx, result: Result<Object, Error>)
    requires
        call_ensures(Ctx::new_error, (ctx,), result),
    ensures
        result is Err <==> refuses(*old(ctx)),
        result matches Err(error) ==> error == Error::Exception && is_refused(
            *old(ctx),
            *final(ctx),
        ),
        result matches Ok(object) ==> {
            &&& object.id == old(ctx).serial
            &&& object.body.class == Class::Error(ErrorKind::Generic)
            &&& object.body.properties@ == old(ctx).blank.properties@
            &&& object.body.items@.len() == 0
            &&& object.body.trace == old(ctx).blank.trace
            &&& final(ctx).pending == old(ctx).pending
            &&& is_used_up(*old(ctx), *final(ctx))
        },
{
}

/// The object is an error of that kind that the engine threw: its identity is the next one
/// of the context, every name but `message` finds on it what it finds among the properties
/// that the engine puts on the errors it throws, and its frames are those that the engine
/// captures.
pub open spec fn is_thrown_natively(ctx: Ctx, object: Object, kind: ErrorKind) -> bool {
    &&& object.id == ctx.serial
    &&& object.body.class == Class::Error(kind)
    &&& forall|name: Seq<char>, found: Option<Property>| #[trigger]
        finds(ctx.native.properties@, name, found) && name != "message"@ ==> finds(
            object.body.properties@,
            name,
            found,
        )
    &&& forall|i: int|
        0 <= i < ctx.native.properties@.len() && ctx.native.properties@[i].name@ != "message"@
            ==> object.body.properties@[i] == #[trigger] ctx.native.properties@[i]
    &&& forall|i: int|
        ctx.native.properties@.len() <= i < object.body.properties@.len() ==> (
        #[trigger] object.body.properties@[i]).name@ == "message"@
    &&& object.body.items@.len() == 0
    &&& object.body.trace == ctx.native.trace
}

/// The property is a text that scripts can replace and do not list.
pub open spec fn is_hidden_text(property: Property, text: Seq<char>) -> bool {
    &&& property.read matches Ok(Value::String(held)) && held@ == text
    &&& property.write is Replace
    &&& !property.listed
}

proof fn lemma_native_throw(before: Ctx, after: Ctx, kind: ErrorKind, text: Seq<char>)
    requires
        crate::ctx::is_native_throw(before, after, kind, text),
    ensures
        refuses(before) ==> is_refused(before, after),
        !refuses(before) ==> {
            &&& after.pending matches Some(Value::Object(object))
            &&& is_thrown_natively(before, object, kind)
            &&& exists|property: Property|
                finds(object.body.properties@, "message"@, Some(property)) && #[trigger]
                is_hidden_text(property, text)
            &&& is_used_up(before, after)
        },
{
    if !refuses(before) {
        if let Some(Value::Object(object)) = after.pending {
            let old_properties = before.native.properties@;
            let new_properties = object.body.properties@;
            assert forall|name: Seq<char>, found: Option<Property>| #[trigger]
                finds(old_properties, name, found) && name != "message"@ implies finds(
                new_properties,
                name,
                found,
            ) by {
                object::law_put_text_reads_back(
                    old_properties,
                    new_properties,
                    "message"@,
                    text,
                    false,
                    name,
                );
                lemma_finds(old_properties, name, found);
                lemma_finds(new_properties, name, found);
            }
            object::law_found_is_first_of_its_name(old_properties, "message"@);
            object::law_put_text_reads_back(
                old_properties,
                new_properties,
                "message"@,
                text,
                false,
                "message"@,
            );
            let property = object::lookup(new_properties, "message"@)->0;
            lemma_finds(new_properties, "message"@, Some(property));
            assert(is_hidden_text(property, text));
        }
    }
}

/// The engine throws an error of the kind that it is told, with the text of the C string as
/// its message and all else as on any error that it throws, unless it refuses.
pub proof fn law_engine_throws_what_it_is_told(
    ctx: &mut Ctx,
    kind: ErrorKind,
    buffer: &[u8],
    len: int,
    error: Error,
)
    requires
        call_ensures(Ctx::throw_native, (ctx, kind, buffer), error),
        0 <= len <= buffer@.len(),
        forall|i: int| 0 <= i < len ==> #[trigger] buffer@[i] != 0,
        len < buffer@.len() ==> buffer@[len] == 0,
        valid_utf8(buffer@.take(len)),
    ensures
        error == Error::Exception,
        refuses(*old(ctx)) ==> is_refused(*old(ctx), *final(ctx)),
        !refuses(*old(ctx)) ==> {
            &&& final(ctx).pending matches Some(Value::Object(object))
            &&& is_thrown_natively(*old(ctx), object, kind)
            &&& exists|property: Property|
                finds(object.body.properties@, "message"@, Some(property)) && #[trigger]
                is_hidden_text(property, decode_utf8(buffer@.take(len)))
            &&& is_used_up(*old(ctx), *final(ctx))
        },
{
    let kept = text::c_bytes(buffer@);
    lemma_c_bytes_are_before_zero(buffer@);
    if kept.len() < len {
        assert(buffer@[kept.len() as int] != 0);
    }
    if len < kept.len() {
        assert(kept[len] == buffer@[len]);
    }
    lemma_native_throw(*old(ctx), *final(ctx), kind, decode_utf8(kept));
}

/// A throw of a syntax error leaves an error of that kind pending, with what the engine takes
/// over of the message. Every other name finds on it what it finds among the properties that
/// the engine puts on the errors it throws, and its frames are those that the engine
/// captures. Where the engine refuses to make it, what that leaves is pending.
pub proof fn law_throw_syntax_leaves_that_error(
    ctx: &mut Ctx,
    message: &str,
    error: Error,
    name: Seq<char>,
    found: Option<Property>,
)
    requires
        call_ensures(Exception::throw_syntax, (ctx, message), error),
        name != "message"@,
        finds(old(ctx).native.properties@, name, found),
    ensures
        error == Error::Exception,
        refuses(*old(ctx)) ==> is_refused(*old(ctx), *final(ctx)),
        !refuses(*old(ctx)) ==> {
            &&& final(ctx).pending matches Some(Value::Object(object))
            &&& object.id == old(ctx).serial
            &&& object.body.class == Class::Error(ErrorKind::Syntax)
            &&& finds(object.body.properties@, name, found)
            &&& forall|i: int|
                0 <= i < old(ctx).native.properties@.len()
                    && old(ctx).native.properties@[i].name@ != "message"@
                    ==> object.body.properties@[i] == #[trigger] old(ctx).native.properties@[i]
            &&& forall|i: int|
                old(ctx).native.properties@.len() <= i < object.body.properties@.len() ==> (
                #[trigger] object.body.properties@[i]).name@ == "message"@
            &&& object.body.items@.len() == 0
            &&& object.body.trace == old(ctx).native.trace
            &&& exists|property: Property, text: Seq<char>|
                finds(object.body.properties@, "message"@, Some(property)) && #[trigger]
                is_hidden_text(property, text) && takes_over(message@, text)
            &&& is_used_up(*old(ctx), *final(ctx))
        },
{
    lemma_takes_over(message@);
    lemma_native_throw(
        *old(ctx),
        *final(ctx),
        ErrorKind::Syntax,
        text::native_text(message@),
    );
}

/// A throw of a type error leaves an error of that kind pending, with what the engine takes
/// over of the message. Every other name finds on it what it finds among the properties that
/// the engine puts on the errors it throws, and its frames are those that the engine
/// captures. Where the engine refuses to make it, what that leaves is pending.
pub proof fn law_throw_type_leaves_that_error(
    ctx: &mut Ctx,
    message: &str,
    error: Error,
    name: Seq<char>,
    found: Option<Property>,
)
    requires
        call_ensures(Exception::throw_type, (ctx, message), error),
        name != "message"@,
        finds(old(ctx).native.properties@, name, found),
    ensures
        error == Error::Exception,
        refuses(*old(ctx)) ==> is_refused(*old(ctx), *final(ctx)),
        !refuses(*old(ctx)) ==> {
            &&& final(ctx).pending matches Some(Value::Object(object))
            &&& object.id == old(ctx).serial
            &&& object.body.class == Class::Error(ErrorKind::Type)
            &&& finds(object.body.properties@, name, found)
            &&& forall|i: int|
                0 <= i < old(ctx).native.properties@.len()
                    && old(ctx).native.properties@[i].name@ != "message"@
                    ==> object.body.properties@[i] == #[trigger] old(ctx).native.properties@[i]
            &&& forall|i: int|
                old(ctx).native.properties@.len() <= i < object.body.properties@.len() ==> (
                #[trigger] object.body.properties@[i]).name@ == "message"@
            &&& object.body.items@.len() == 0
            &&& object.body.trace == old(ctx).native.trace
            &&& exists|property: Property, text: Seq<char>|
                finds(object.body.properties@, "message"@, Some(property)) && #[trigger]
                is_hidden_text(property, text) && takes_over(message@, text)
            &&& is_used_up(*old(ctx), *final(ctx))
        },
{
    lemma_takes_over(message@);
    lemma_native_throw(
        *old(ctx),
        *final(ctx),
        ErrorKind::Type,
        text::native_text(message@),
    );
}

/// A throw of a reference error leaves an error of that kind pending, with what the engine takes
/// over of the message. Every other name finds on it what it finds among the properties that
/// the engine puts on the errors it throws, and its frames are those that the engine
/// captures. Where the engine refuses to make it, what that leaves is pending.
pub proof fn law_throw_reference_leaves_that_error(
    ctx: &mut Ctx,
    message: &str,
    error: Error,
    name: Seq<char>,
    found: Option<Property>,
)
    requires
        call_ensures(Exception::throw_reference, (ctx, message), error),
        name != "message"@,
        finds(old(ctx).native.properties@, name, found),
    ensures
        error == Error::Exception,
        refuses(*old(ctx)) ==> is_refused(*old(ctx), *final(ctx)),
        !refuses(*old(ctx)) ==> {
            &&& final(ctx).pending matches Some(Value::Object(object))
            &&& object.id == old(ctx).serial
            &&& object.body.class == Class::Error(ErrorKind::Reference)
            &&& finds(object.body.properties@, name, found)
            &&& forall|i: int|
                0 <= i < old(ctx).native.properties@.len()
                    && old(ctx).native.properties@[i].name@ != "message"@
                    ==> object.body.properties@[i] == #[trigger] old(ctx).native.properties@[i]
            &&& forall|i: int|
                old(ctx).native.properties@.len() <= i < object.body.properties@.len() ==> (
                #[trigger] object.body.properties@[i]).name@ == "message"@
            &&& object.body.items@.len() == 0
            &&& object.body.trace == old(ctx).native.trace
            &&& exists|property: Property, text: Seq<char>|
                finds(object.body.properties@, "message"@, Some(property)) && #[trigger]
                is_hidden_text(property, text) && takes_over(message@, text)
            &&& is_used_up(*old(ctx), *final(ctx))
        },
{
    lemma_takes_over(message@);
    lemma_native_throw(
        *old(ctx),
        *final(ctx),
        ErrorKind::Reference,
        text::native_text(message@),
    );
}

/// A throw of a range error leaves an error of that kind pending, with what the engine takes
/// over of the message. Every other name finds on it what it finds among the properties that
/// the engine puts on the errors it throws, and its frames are those that the engine
/// captures. Where the engine refuses to make it, what that leaves is pending.
pub proof fn law_throw_range_leaves_that_error(
    ctx: &mut Ctx,
    message: &str,
    error: Error,
    name: Seq<char>,
    found: Option<Property>,
)
    requires
        call_ensures(Exception::throw_range, (ctx, message), error),
        name != "message"@,
        finds(old(ctx).native.properties@, name, found),
    ensures
        error == Error::Exception,
        refuses(*old(ctx)) ==> is_refused(*old(ctx), *final(ctx)),
        !refuses(*old(ctx)) ==> {
            &&& final(ctx).pending matches Some(Value::Object(object))
            &&& object.id == old(ctx).serial
            &&& object.body.class == Class::Error(ErrorKind::Range)
            &&& finds(object.body.properties@, name, found)
            &&& forall|i: int|
                0 <= i < old(ctx).native.properties@.len()
                    && old(ctx).native.properties@[i].name@ != "message"@
                    ==> object.body.properties@[i] == #[trigger] old(ctx).native.properties@[i]
            &&& forall|i: int|
                old(ctx).native.properties@.len() <= i < object.body.properties@.len() ==> (
                #[trigger] object.body.properties@[i]).name@ == "message"@
            &&& object.body.items@.len() == 0
            &&& object.body.trace == old(ctx).native.trace
            &&& exists|property: Property, text: Seq<char>|
                finds(object.body.properties@, "message"@, Some(property)) && #[trigger]
                is_hidden_text(property, text) && takes_over(message@, text)
            &&& is_used_up(*old(ctx), *final(ctx))
        },
{
    lemma_takes_over(message@);
    lemma_native_throw(
        *old(ctx),
        *final(ctx),
        ErrorKind::Range,
        text::native_text(message@),
    );
}

/// A throw of an internal error leaves an error of that kind pending, with what the engine takes
/// over of the message. Every other name finds on it what it finds among the properties that
/// the engine puts on the errors it throws, and its frames are those that the engine
/// captures. Where the engine refuses to make it, what that leaves is pending.
pub proof fn law_throw_internal_leaves_that_error(
    ctx: &mut Ctx,
    message: &str,
    error: Error,
    name: Seq<char>,
    found: Option<Property>,
)
    requires
        call_ensures(Exception::throw_internal, (ctx, message), error),
        name != "message"@,
        finds(old(ctx).native.properties@, name, found),
    ensures
        error == Error::Exception,
        refuses(*old(ctx)) ==> is_refused(*old(ctx), *final(ctx)),
        !refuses(*old(ctx)) ==> {
            &&& final(ctx).pending matches Some(Value::Object(object))
            &&& object.id == old(ctx).serial
            &&& object.body.class == Class::Error(ErrorKind::Internal)
            &&& finds(object.body.properties@, name, found)
            &&& forall|i: int|
                0 <= i < old(ctx).native.properties@.len()
                    && old(ctx).native.properties@[i].name@ != "message"@
                    ==> object.body.properties@[i] == #[trigger] old(ctx).native.properties@[i]
            &&& forall|i: int|
                old(ctx).native.properties@.len() <= i < object.body.properties@.len() ==> (
                #[trigger] object.body.properties@[i]).name@ == "message"@
            &&& object.body.items@.len() == 0
            &&& object.body.trace == old(ctx).native.trace
            &&& exists|property: Property, text: Seq<char>|
                finds(object.body.properties@, "message"@, Some(property)) && #[trigger]
                is_hidden_text(property, text) && takes_over(message@, text)
            &&& is_used_up(*old(ctx), *final(ctx))
        },
{
    lemma_takes_over(message@);
    lemma_native_throw(
        *old(ctx),
        *final(ctx),
        ErrorKind::Internal,
        text::native_text(message@),
    );
}

/// The object is a new generic error of the context, with a message. Where `message` could
/// be written, it finds that text and every other name finds what it finds on any new error;
/// where writes to it are ignored, the error is as any new one; where a setter takes it, the
/// error is what the setter left.
pub open spec fn is_made_with_message(ctx: Ctx, object: Object, message: Seq<char>) -> bool {
    &&& object.id == ctx.serial
    &&& object.body.class == Class::Error(ErrorKind::Generic)
    &&& forall|found: Option<Property>| #[trigger]
        finds(ctx.blank.properties@, "message"@, found) ==> {
            &&& (found is None || found->0.write is Replace || found->0.write is Add) ==> {
                &&& has_message(object, message, found is Some && found->0.write is Replace
                    ==> found->0.listed)
                &&& forall|name: Seq<char>, other: Option<Property>| #[trigger]
                    finds(ctx.blank.properties@, name, other) && name != "message"@ ==> finds(
                        object.body.properties@,
                        name,
                        other,
                    )
                &&& object.body.items@.len() == 0
                &&& object.body.trace == ctx.blank.trace
            }
            &&& (found is Some && found->0.write is Replace) ==> {
                &&& object.body.properties@.len() == ctx.blank.properties@.len()
                &&& forall|i: int|
                    0 <= i < ctx.blank.properties@.len() && !is_first(
                        ctx.blank.properties@,
                        "message"@,
                        i,
                    ) ==> object.body.properties@[i] == #[trigger] ctx.blank.properties@[i]
            }
            &&& (found is None || found->0.write is Add) ==> object.body.properties@.drop_last()
                == ctx.blank.properties@.filter(is_named_otherwise("message"@))
            &&& found matches Some(property) ==> (property.write is Ignore ==> {
                &&& object.body.properties@ == ctx.blank.properties@
                &&& object.body.items@.len() == 0
                &&& object.body.trace == ctx.blank.trace
            })
            &&& found matches Some(property) ==> (property.write matches Write::Run(left) ==> {
                &&& object.body.properties@ == left.properties@
                &&& object.body.items@ == left.items@
                &&& object.body.trace == left.trace
            })
        }
}

/// The object finds that text under `message`, as a property that scripts can replace.
pub open spec fn has_message(object: Object, message: Seq<char>, listed: bool) -> bool {
    exists|property: Property| #[trigger]
        finds(object.body.properties@, "message"@, Some(property)) && {
            &&& property.read matches Ok(Value::String(held)) && held@ == message
            &&& property.write is Replace
            &&& property.listed == listed
        }
}

proof fn lemma_made_with_message(ctx: Ctx, object: Object, message: Seq<char>)
    requires
        exception::is_message_error(ctx, object, message),
    ensures
        is_made_with_message(ctx, object, message),
{
    let before = ctx.blank.properties@;
    let after = object.body.properties@;
    assert forall|found: Option<Property>| #[trigger]
        finds(before, "message"@, found) && (found is None || found->0.write is Replace
        || found->0.write is Add) implies {
        &&& has_message(object, message, found is Some && found->0.write is Replace
            ==> found->0.listed)
        &&& forall|name: Seq<char>, other: Option<Property>| #[trigger]
            finds(before, name, other) && name != "message"@ ==> finds(after, name, other)
    } by {
        lemma_finds(before, "message"@, found);
        let written = object::lookup(after, "message"@);
        lemma_finds(after, "message"@, written);
        if object::write_in(before, "message"@) is Replace {
            let listed = before[object::position(before, "message"@) as int].listed;
            object::law_put_text_reads_back(
                before,
                after,
                "message"@,
                message,
                listed,
                "message"@,
            );
        } else {
            object::law_added_text_reads_back(before, after, "message"@, message, "message"@);
        }
        assert forall|name: Seq<char>, other: Option<Property>| #[trigger]
            finds(before, name, other) && name != "message"@ implies finds(after, name, other) by {
            lemma_finds(before, name, other);
            lemma_finds(after, name, other);
            if object::write_in(before, "message"@) is Replace {
                let listed = before[object::position(before, "message"@) as int].listed;
                object::law_put_text_reads_back(before, after, "message"@, message, listed, name);
            } else {
                object::law_added_text_reads_back(before, after, "message"@, message, name);
            }
        }
    }
    assert forall|found: Option<Property>| #[trigger]
        finds(before, "message"@, found) implies found == object::lookup(before, "message"@) by {
        lemma_finds(before, "message"@, found);
    }
    lemma_without_is_filter(before, "message"@);
    if object::lookup(before, "message"@) is Some {
        lemma_position_is_first(before, "message"@);
    }
}

/// Making an exception with a message: it is a new error with that message, and nothing
/// becomes pending. It fails where the engine refuses to make an object and where the write
/// of the message fails, and nowhere else.
pub proof fn law_from_message_makes_an_error_with_it(
    ctx: &mut Ctx,
    message: &str,
    result: Result<Exception, Error>,
    found: Option<Property>,
)
    requires
        call_ensures(Exception::from_message, (ctx, message), result),
        finds(old(ctx).blank.properties@, "message"@, found),
    ensures
        refuses(*old(ctx)) ==> {
            &&& result matches Err(error) && error == Error::Exception
            &&& is_refused(*old(ctx), *final(ctx))
        },
        !refuses(*old(ctx)) ==> (result is Err <==> (found matches Some(property)
            && property.write is Fail)),
        !refuses(*old(ctx)) ==> is_used_up(*old(ctx), *final(ctx)),
        !refuses(*old(ctx)) ==> (result matches Err(error) ==> (found matches Some(property) && (
        property.write matches Write::Fail(failure) && {
            &&& answers(error, failure)
            &&& failure matches Failure::Thrown(value) ==> final(ctx).pending == Some(*value)
            &&& !(failure is Thrown) ==> final(ctx).pending == old(ctx).pending
        }))),
        result matches Ok(exception) ==> {
            &&& is_made_with_message(*old(ctx), exception@, message@)
            &&& final(ctx).pending == old(ctx).pending
        },
{
    lemma_finds(old(ctx).blank.properties@, "message"@, found);
    if let Ok(exception) = result {
        lemma_made_with_message(*old(ctx), exception@, message@);
    }
}

/// Throwing a message leaves a new error with that message pending, or what kept it from
/// being made.
pub proof fn law_throw_message_leaves_an_error_with_it(
    ctx: &mut Ctx,
    message: &str,
    error: Error,
    found: Option<Property>,
)
    requires
        call_ensures(Exception::throw_message, (ctx, message), error),
        finds(old(ctx).blank.properties@, "message"@, found),
    ensures
        refuses(*old(ctx)) ==> error == Error::Exception && is_refused(*old(ctx), *final(ctx)),
        !refuses(*old(ctx)) ==> is_used_up(*old(ctx), *final(ctx)),
        !refuses(*old(ctx)) ==> (found matches Some(property) ==> (
        property.write matches Write::Fail(failure) ==> {
            &&& answers(error, failure)
            &&& failure matches Failure::Thrown(value) ==> final(ctx).pending == Some(*value)
            &&& !(failure is Thrown) ==> final(ctx).pending == old(ctx).pending
        })),
        !refuses(*old(ctx)) && !(found is Some && found->0.write is Fail) ==> {
            &&& error == Error::Exception
            &&& final(ctx).pending matches Some(Value::Object(object))
            &&& is_made_with_message(*old(ctx), object, message@)
        },
{
    lemma_finds(old(ctx).blank.properties@, "message"@, found);
    if let Some(Value::Object(object)) = final(ctx).pending {
        if exception::is_message_error(*old(ctx), object, message@) {
            lemma_made_with_message(*old(ctx), object, message@);
        }
    }
}

/// The message of an exception that was made with one is that message, where it could be
/// written.
pub proof fn law_made_message_is_the_message(
    ctx: &mut Ctx,
    message: &str,
    exception: Exception,
    found: Option<Property>,
    reading: &mut Ctx,
    text: Option<String>,
)
    requires
        call_ensures(
            Exception::from_message,
            (ctx, message),
            Ok::<Exception, Error>(exception),
        ),
        finds(old(ctx).blank.properties@, "message"@, found),
        found is None || found->0.write is Replace || found->0.write is Add,
        call_ensures(Exception::message, (&exception, reading), text),
    ensures
        text matches Some(text) && text@ == message@,
        *final(reading) == *old(reading),
{
    law_from_message_makes_an_error_with_it(ctx, message, Ok(exception), found);
    assert(has_message(
        exception@,
        message@,
        found is Some && found->0.write is Replace ==> found->0.listed,
    ));
    let property = choose|property: Property| #[trigger]
        finds(exception@.body.properties@, "message"@, Some(property)) && (
        property.read matches Ok(Value::String(held)) && held@ == message@);
    law_message_is_what_the_property_reads_as(exception, reading, text, Some(property));
}

/// An exception that is thrown is what is then caught, as the object that it is.
pub proof fn law_thrown_exception_is_caught(
    exception: Exception,
    first: &mut Ctx,
    error: Error,
    second: &mut Ctx,
    caught: Option<Value>,
)
    requires
        call_ensures(Exception::throw, (exception, first), error),
        *old(second) == *final(first),
        call_ensures(Ctx::catch, (second,), caught),
    ensures
        error == Error::Exception,
        caught == Some(Value::Object(exception@)),
        final(first).pending == Some(Value::Object(exception@)),
        final(first).refusal == old(first).refusal,
        final(first).blank == old(first).blank,
        final(first).native == old(first).native,
        final(first).serial == old(first).serial,
{
}

/// In a new context nothing is pending, the engine makes objects and its errors have no
/// property and no frame.
pub proof fn law_new_context_is_empty(ctx: Ctx)
    requires
        call_ensures(Ctx::new, (), ctx),
    ensures
        ctx.pending is None,
        !refuses(ctx),
        ctx.serial == 0,
        ctx.blank.properties@.len() == 0,
        ctx.blank.trace is Absent,
        ctx.native.properties@.len() == 0,
        ctx.native.trace is Absent,
{
}

/// The pieces that an error is shown as are the label, then the message after a space and
/// the stack after a line break, each where there is one.
pub proof fn law_pieces_are_label_message_and_stack(
    message: Option<String>,
    stack: Option<String>,
    shown: Vec<String>,
)
    requires
        call_ensures(pieces, (message, stack), shown),
    ensures
        shown@.len() == 1 + (if message is Some {
            2int
        } else {
            0
        }) + (if stack is Some {
            2int
        } else {
            0
        }),
        shown@[0]@ == "Error:"@,
        message matches Some(message) ==> shown@[1]@ == " "@ && shown@[2]@ == message@,
        stack matches Some(stack) ==> shown@[shown@.len() - 2]@ == "\n"@ && shown@[shown@.len()
            - 1]@ == stack@,
{
    lemma_pieces(shown@, convert::text_view(message), convert::text_view(stack));
}

proof fn lemma_pieces(shown: Seq<String>, message: Option<Seq<char>>, stack: Option<Seq<char>>)
    requires
        display::piece_views(shown) == display::pieces_of(message, stack),
    ensures
        shown.len() == 1 + (if message is Some {
            2int
        } else {
            0
        }) + (if stack is Some {
            2int
        } else {
            0
        }),
        shown[0]@ == "Error:"@,
        message matches Some(message) ==> shown[1]@ == " "@ && shown[2]@ == message,
        stack matches Some(stack) ==> shown[shown.len() - 2]@ == "\n"@ && shown[shown.len() - 1]@
            == stack,
{
    let views = display::piece_views(shown);
    assert(views.len() == shown.len());
    assert(views[0] == shown[0]@);
    if message is Some {
        assert(views[1] == shown[1]@);
        assert(views[2] == shown[2]@);
    }
    if stack is Some {
        assert(views[shown.len() - 2] == shown[shown.len() - 2]@);
        assert(views[shown.len() - 1] == shown[shown.len() - 1]@);
    }
}

/// An error is shown by its message and its stack, as reading the one and then the other
/// gives them: in one text after the label, in pieces, and quoted for a developer. Showing it
/// does to the context what the two reads do.
pub proof fn law_errors_are_shown_by_message_and_stack(
    exception: Exception,
    first: &mut Ctx,
    message: Option<String>,
    second: &mut Ctx,
    stack: Option<String>,
    piece_ctx: &mut Ctx,
    shown: Vec<String>,
    text_ctx: &mut Ctx,
    text: String,
    debug_ctx: &mut Ctx,
    debug: String,
)
    requires
        call_ensures(Exception::message, (&exception, first), message),
        *old(second) == *final(first),
        call_ensures(Exception::stack, (&exception, second), stack),
        *old(piece_ctx) == *old(first),
        call_ensures(Exception::display_pieces, (&exception, piece_ctx), shown),
        *old(text_ctx) == *old(first),
        call_ensures(Exception::display, (&exception, text_ctx), text),
        *old(debug_ctx) == *old(first),
        call_ensures(Exception::debug, (&exception, debug_ctx), debug),
    ensures
        text@ == "Error:"@ + (match message {
            Some(message) => " "@ + message@,
            None => Seq::empty(),
        }) + (match stack {
            Some(stack) => "\n"@ + stack@,
            None => Seq::empty(),
        }),
        shown@.len() == 1 + (if message is Some {
            2int
        } else {
            0
        }) + (if stack is Some {
            2int
        } else {
            0
        }),
        shown@[0]@ == "Error:"@,
        message matches Some(message) ==> shown@[1]@ == " "@ && shown@[2]@ == message@,
        stack matches Some(stack) ==> shown@[shown@.len() - 2]@ == "\n"@ && shown@[shown@.len()
            - 1]@ == stack@,
        debug@ == "Exception { message: "@ + (match message {
            Some(message) => "Some("@ + display::quoted(message@) + ")"@,
            None => "None"@,
        }) + ", stack: "@ + (match stack {
            Some(stack) => "Some("@ + display::quoted(stack@) + ")"@,
            None => "None"@,
        }) + " }"@,
        *final(piece_ctx) == *final(second),
        *final(text_ctx) == *final(second),
        *final(debug_ctx) == *final(second),
{
    display::law_display_text(convert::text_view(message), convert::text_view(stack));
    lemma_pieces(shown@, convert::text_view(message), convert::text_view(stack));
}

/// The text for a developer holds the two quotations as they are.
pub proof fn law_developer_text_holds_the_quotations(
    message: Option<String>,
    stack: Option<String>,
    text: String,
)
    requires
        call_ensures(debug_text, (message, stack), text),
    ensures
        text@ == "Exception { message: "@ + (match message {
            Some(message) => "Some("@ + message@ + ")"@,
            None => "None"@,
        }) + ", stack: "@ + (match stack {
            Some(stack) => "Some("@ + stack@ + ")"@,
            None => "None"@,
        }) + " }"@,
{
}

/// A new map of variables finds nothing under any name, and is empty.
pub proof fn law_new_locals_find_nothing(
    locals: Locals,
    name: &str,
    value: Option<&Value>,
    contained: bool,
    len: usize,
    empty: bool,
    names: Vec<String>,
)
    requires
        call_ensures(Locals::new, (), locals),
        call_ensures(Locals::get, (&locals, name), value),
        call_ensures(Locals::contains_key, (&locals, name), contained),
        call_ensures(Locals::len, (&locals,), len),
        call_ensures(Locals::is_empty, (&locals,), empty),
        call_ensures(Locals::names, (&locals,), names),
    ensures
        value is None,
        !contained,
        len == 0,
        empty,
        names@.len() == 0,
{
    assert(locals@.dom() =~= Set::empty());
}

/// A value that is put at a name is found there, what stood there is handed back, and every
/// other name finds what it found.
pub proof fn law_put_variable_is_found(
    locals: &mut Locals,
    name: String,
    value: Value,
    previous: Option<Value>,
    asked_name: &str,
    before: Locals,
    earlier: Option<&Value>,
    after: Locals,
    later: Option<&Value>,
)
    requires
        call_ensures(Locals::insert, (locals, name, value), previous),
        before == *old(locals),
        after == *final(locals),
        call_ensures(Locals::get, (&before, asked_name), earlier),
        call_ensures(Locals::get, (&after, asked_name), later),
    ensures
        asked_name@ == name@ ==> {
            &&& later matches Some(later) && *later == value
            &&& match earlier {
                Some(earlier) => previous == Some(*earlier),
                None => previous is None,
            }
        },
        asked_name@ != name@ ==> later == earlier,
{
}

/// A name is in a map of variables exactly where it finds a value and where it is among the
/// names, which are as many as the map counts, each once.
pub proof fn law_variables_have_the_names(
    locals: Locals,
    name: &str,
    value: Option<&Value>,
    contained: bool,
    len: usize,
    empty: bool,
    names: Vec<String>,
    copy: Locals,
)
    requires
        call_ensures(Locals::get, (&locals, name), value),
        call_ensures(Locals::contains_key, (&locals, name), contained),
        call_ensures(Locals::len, (&locals,), len),
        call_ensures(Locals::is_empty, (&locals,), empty),
        call_ensures(Locals::names, (&locals,), names),
        call_ensures(Locals::clone, (&locals,), copy),
    ensures
        contained <==> value is Some,
        contained <==> locals@.dom().contains(name@),
        value matches Some(value) ==> *value == locals@[name@],
        contained <==> exists|i: int| 0 <= i < names@.len() && #[trigger] names@[i]@ == name@,
        forall|i: int, j: int|
            0 <= i < j < names@.len() ==> #[trigger] names@[i]@ != #[trigger] names@[j]@,
        names@.len() == len,
        empty <==> len == 0,
        copy@ == locals@,
{
    let views = crate::locals::name_views(names@);
    assert(views.len() == names@.len());
    assert forall|i: int, j: int| 0 <= i < j < names@.len() implies #[trigger] names@[i]@
        != #[trigger] names@[j]@ by {
        assert(views[i] == names@[i]@);
        assert(views[j] == names@[j]@);
    }
    if views.to_set().contains(name@) {
        let i = choose|i: int| 0 <= i < views.len() && views[i] == name@;
        assert(names@[i]@ == name@);
    }
    if exists|i: int| 0 <= i < names@.len() && #[trigger] names@[i]@ == name@ {
        let i = choose|i: int| 0 <= i < names@.len() && #[trigger] names@[i]@ == name@;
        assert(views[i] == name@);
        assert(views.contains(name@));
    }
    if empty {
        assert(locals@.dom() =~= Set::empty());
    }
    if len == 0 {
        assert(locals@ =~= Map::empty()) by {
            assert(locals@.dom().len() == 0);
            assert(locals@.dom() =~= Set::empty());
        }
    }
}

/// A name reads as the whole of the string that its first property holds, however long, and
/// as nothing where no property has the name or its first one is undefined or null.
pub proof fn law_strings_are_read_whole(
    object: Object,
    name: &str,
    text: Result<Option<String>, Failure>,
    i: int,
)
    requires
        call_ensures(Object::get_text, (&object, name), text),
        0 <= i <= object.body.properties@.len(),
        forall|j: int| 0 <= j < i ==> (#[trigger] object.body.properties@[j]).name@ != name@,
        i < object.body.properties@.len() ==> object.body.properties@[i].name@ == name@,
    ensures
        i == object.body.properties@.len() ==> text matches Ok(None),
        i < object.body.properties@.len() ==> match object.body.properties@[i].read {
            Ok(Value::String(held)) => text matches Ok(Some(text)) && text@ == held@,
            Ok(Value::Undefined) => text matches Ok(None),
            Ok(Value::Null) => text matches Ok(None),
            Ok(_) => true,
            Err(failure) => text == Err::<Option<String>, Failure>(failure),
        },
{
    lemma_found_at(object.body.properties@, name@, i);
}

proof fn lemma_found_at(properties: Seq<Property>, name: Seq<char>, i: int)
    requires
        0 <= i <= properties.len(),
        forall|j: int| 0 <= j < i ==> (#[trigger] properties[j]).name@ != name,
        i < properties.len() ==> properties[i].name@ == name,
    ensures
        object::lookup(properties, name) == (if i < properties.len() {
            Some(properties[i])
        } else {
            None
        }),
        i < properties.len() ==> is_first(properties, name, i) && finds(
            properties,
            name,
            Some(properties[i]),
        ),
        i == properties.len() ==> finds(properties, name, None),
{
    if i < properties.len() {
        assert(is_first(properties, name, i));
        object::law_first_of_a_name_is_found(properties, name, i);
    } else {
        object::law_missing_name_finds_nothing(properties, name);
    }
}

/// The stack of an error is the whole of the string that its first property `stack` holds,
/// however long, and there is none where no property has that name or its first one is
/// undefined or null.
pub proof fn law_stack_is_read_whole(
    exception: Exception,
    ctx: &mut Ctx,
    text: Option<String>,
    i: int,
)
    requires
        call_ensures(Exception::stack, (&exception, ctx), text),
        0 <= i <= exception@.body.properties@.len(),
        forall|j: int|
            0 <= j < i ==> (#[trigger] exception@.body.properties@[j]).name@ != "stack"@,
        i < exception@.body.properties@.len() ==> exception@.body.properties@[i].name@
            == "stack"@,
    ensures
        i == exception@.body.properties@.len() ==> text is None,
        i < exception@.body.properties@.len() ==> match exception@.body.properties@[i].read {
            Ok(Value::String(held)) => text matches Some(text) && text@ == held@,
            Ok(Value::Undefined) => text is None,
            Ok(Value::Null) => text is None,
            Ok(_) => true,
            Err(_) => text is None,
        },
{
    lemma_found_at(exception@.body.properties@, "stack"@, i);
}

/// The message of an error is the whole of the string that its first property `message` holds,
/// however long, and there is none where no property has that name or its first one is
/// undefined or null.
pub proof fn law_message_is_read_whole(
    exception: Exception,
    ctx: &mut Ctx,
    text: Option<String>,
    i: int,
)
    requires
        call_ensures(Exception::message, (&exception, ctx), text),
        0 <= i <= exception@.body.properties@.len(),
        forall|j: int|
            0 <= j < i ==> (#[trigger] exception@.body.properties@[j]).name@ != "message"@,
        i < exception@.body.properties@.len() ==> exception@.body.properties@[i].name@
            == "message"@,
    ensures
        i == exception@.body.properties@.len() ==> text is None,
        i < exception@.body.properties@.len() ==> match exception@.body.properties@[i].read {
            Ok(Value::String(held)) => text matches Some(text) && text@ == held@,
            Ok(Value::Undefined) => text is None,
            Ok(Value::Null) => text is None,
            Ok(_) => true,
            Err(_) => text is None,
        },
{
    lemma_found_at(exception@.body.properties@, "message"@, i);
}

/// Each part of a frame among the frames of an error is what the first property of its own
/// name on the captured entry holds, and it is missing where there is no such property.
pub proof fn law_parts_of_frames_are_their_own(
    exception: Exception,
    ctx: &mut Ctx,
    depth: Option<usize>,
    frames: Vec<Frame>,
    entries: Seq<Result<Value, Failure>>,
    n: int,
    object: Object,
    name: Seq<char>,
    i: int,
)
    requires
        call_ensures(
            Exception::frames,
            (&exception, ctx, depth),
            Ok::<Vec<Frame>, Error>(frames),
        ),
        exception@.body.trace matches Trace::Captured(captured) && captured@ == entries,
        0 <= n < frames@.len(),
        n < entries.len() && entries[n] == Ok::<Value, Failure>(Value::Object(object)),
        0 <= i <= object.body.properties@.len(),
        forall|j: int| 0 <= j < i ==> (#[trigger] object.body.properties@[j]).name@ != name,
        i < object.body.properties@.len() ==> object.body.properties@[i].name@ == name,
    ensures
        i == object.body.properties@.len() ==> {
            &&& name == "functionName"@ ==> frames@[n].function_name is None
            &&& name == "fileName"@ ==> frames@[n].file_name is None
            &&& name == "lineNumber"@ ==> frames@[n].line_number is None
            &&& name == "columnNumber"@ ==> frames@[n].column_number is None
            &&& name == "native"@ ==> !frames@[n].native
            &&& name == "locals"@ ==> frames@[n].locals@.dom().is_empty()
        },
        i < object.body.properties@.len() ==> match object.body.properties@[i].read {
            Ok(Value::String(held)) => {
                &&& name == "functionName"@ ==> (frames@[n].function_name matches Some(text)
                    && text@ == held@)
                &&& name == "fileName"@ ==> (frames@[n].file_name matches Some(text) && text@
                    == held@)
            },
            Ok(Value::Int(number)) => {
                &&& name == "lineNumber"@ && number >= 0 ==> (
                frames@[n].line_number matches Some(place) && place == number)
                &&& name == "lineNumber"@ && number < 0 ==> frames@[n].line_number is None
                &&& name == "columnNumber"@ && number >= 0 ==> (
                frames@[n].column_number matches Some(place) && place == number)
                &&& name == "columnNumber"@ && number < 0 ==> frames@[n].column_number is None
            },
            Ok(Value::Bool(held)) => name == "native"@ ==> frames@[n].native == held,
            Ok(Value::Undefined) | Ok(Value::Null) => {
                &&& name == "functionName"@ ==> frames@[n].function_name is None
                &&& name == "fileName"@ ==> frames@[n].file_name is None
                &&& name == "lineNumber"@ ==> frames@[n].line_number is None
                &&& name == "columnNumber"@ ==> frames@[n].column_number is None
                &&& name == "native"@ ==> !frames@[n].native
                &&& name == "locals"@ ==> frames@[n].locals@.dom().is_empty()
            },
            _ => true,
        },
{
    law_frames_are_the_captured_entries(exception, ctx, depth, Ok(frames));
    lemma_found_at(object.body.properties@, name, i);
    assert(describes(object, frames@[n]));
}

/// The variables of a frame among the frames of an error are the listed properties of the
/// object that the captured entry holds under `locals`, whatever else the entry holds: each
/// listed property is a variable with the value that it reads as, where its name occurs once,
/// and nothing else is a variable.
pub proof fn law_variables_of_frames_are_listed(
    exception: Exception,
    ctx: &mut Ctx,
    depth: Option<usize>,
    frames: Vec<Frame>,
    entries: Seq<Result<Value, Failure>>,
    n: int,
    object: Object,
    i: int,
    inner: Object,
    k: int,
    name: Seq<char>,
)
    requires
        call_ensures(
            Exception::frames,
            (&exception, ctx, depth),
            Ok::<Vec<Frame>, Error>(frames),
        ),
        exception@.body.trace matches Trace::Captured(captured) && captured@ == entries,
        0 <= n < frames@.len(),
        n < entries.len() && entries[n] == Ok::<Value, Failure>(Value::Object(object)),
        0 <= i < object.body.properties@.len(),
        forall|j: int| 0 <= j < i ==> (#[trigger] object.body.properties@[j]).name@ != "locals"@,
        object.body.properties@[i].name@ == "locals"@,
        object.body.properties@[i].read == Ok::<Value, Failure>(Value::Object(inner)),
        0 <= k < inner.body.properties@.len(),
        forall|j: int|
            0 <= j < inner.body.properties@.len() && j != k ==> (
            #[trigger] inner.body.properties@[j]).name@ != inner.body.properties@[k].name@,
    ensures
        inner.body.properties@[k].listed <==> frames@[n].locals@.dom().contains(
            inner.body.properties@[k].name@,
        ),
        inner.body.properties@[k].listed ==> inner.body.properties@[k].read == Ok::<
            Value,
            Failure,
        >(frames@[n].locals@[inner.body.properties@[k].name@]),
        frames@[n].locals@.dom().contains(name) ==> exists|j: int|
            0 <= j < inner.body.properties@.len() && inner.body.properties@[j].listed && (
            #[trigger] inner.body.properties@[j]).name@ == name,
{
    law_frames_are_the_captured_entries(exception, ctx, depth, Ok(frames));
    lemma_found_at(object.body.properties@, "locals"@, i);
    assert(describes(object, frames@[n]));
    lemma_listed_once(inner.body.properties@, frames@[n].locals@, k, name);
}

proof fn lemma_listed_once(
    properties: Seq<Property>,
    variables: Map<Seq<char>, Value>,
    k: int,
    name: Seq<char>,
)
    requires
        lists(properties, variables),
        0 <= k < properties.len(),
        forall|j: int|
            0 <= j < properties.len() && j != k ==> (#[trigger] properties[j]).name@
                != properties[k].name@,
    ensures
        properties[k].listed <==> variables.dom().contains(properties[k].name@),
        properties[k].listed ==> properties[k].read == Ok::<Value, Failure>(
            variables[properties[k].name@],
        ),
        variables.dom().contains(name) ==> exists|j: int|
            0 <= j < properties.len() && properties[j].listed && (
            #[trigger] properties[j]).name@ == name,
{
    if properties[k].listed {
        assert(is_last_listed(properties, properties[k].name@, k));
    }
    if variables.dom().contains(properties[k].name@) {
        let j = choose|j: int| is_last_listed(properties, properties[k].name@, j);
        assert(properties[j].name@ == properties[k].name@);
    }
    if variables.dom().contains(name) {
        let j = choose|j: int| is_last_listed(properties, name, j);
        assert(properties[j].name@ == name);
    }
}

/// The variables of an error are the listed properties of the object that the first captured
/// entry holds under `locals`, whatever else the entry holds: each listed property is a
/// variable with the value that it reads as, where its name occurs once, and nothing else is
/// a variable.
pub proof fn law_variables_of_an_error_are_listed(
    exception: Exception,
    ctx: &mut Ctx,
    locals: Locals,
    entries: Seq<Result<Value, Failure>>,
    object: Object,
    i: int,
    inner: Object,
    k: int,
    name: Seq<char>,
)
    requires
        call_ensures(Exception::locals, (&exception, ctx), Ok::<Locals, Error>(locals)),
        exception@.body.trace matches Trace::Captured(captured) && captured@ == entries,
        entries.len() > 0 && entries[0] == Ok::<Value, Failure>(Value::Object(object)),
        0 <= i < object.body.properties@.len(),
        forall|j: int| 0 <= j < i ==> (#[trigger] object.body.properties@[j]).name@ != "locals"@,
        object.body.properties@[i].name@ == "locals"@,
        object.body.properties@[i].read == Ok::<Value, Failure>(Value::Object(inner)),
        0 <= k < inner.body.properties@.len(),
        forall|j: int|
            0 <= j < inner.body.properties@.len() && j != k ==> (
            #[trigger] inner.body.properties@[j]).name@ != inner.body.properties@[k].name@,
    ensures
        inner.body.properties@[k].listed <==> locals@.dom().contains(
            inner.body.properties@[k].name@,
        ),
        inner.body.properties@[k].listed ==> inner.body.properties@[k].read == Ok::<
            Value,
            Failure,
        >(locals@[inner.body.properties@[k].name@]),
        locals@.dom().contains(name) ==> exists|j: int|
            0 <= j < inner.body.properties@.len() && inner.body.properties@[j].listed && (
            #[trigger] inner.body.properties@[j]).name@ == name,
{
    lemma_found_at(object.body.properties@, "locals"@, i);
    law_locals_are_what_the_first_entry_lists(
        exception,
        ctx,
        Ok(locals),
        entries,
        object,
        object::lookup(object.body.properties@, "locals"@),
        name,
        None,
    );
    lemma_listed_once(inner.body.properties@, locals@, k, name);
}

} // verus!
