//! Making, throwing and reading errors.
use js_exception::ctx::{Ctx, Error};
use js_exception::display::{debug_text, pieces};
use js_exception::exception::Exception;
use js_exception::frame::{frame_limit, parse_frame, parse_frames};
use js_exception::locals::Locals;
use js_exception::value::{
    Aftermath, Body, Class, ErrorKind, Failure, Object, Other, Property, Trace, Type, Value,
    Write,
};
use std::collections::HashSet;
use std::rc::Rc;

fn property(name: &str, read: Result<Value, Failure>) -> Property {
    Property {
        name: name.to_string(),
        read,
        text: Ok("[object Object]".to_string()),
        write: Write::Replace,
        listed: true,
    }
}

fn data(name: &str, value: Value) -> Property {
    property(name, Ok(value))
}

fn string(text: &str) -> Value {
    Value::String(text.to_string())
}

fn thrown(value: Value) -> Failure {
    Failure::Thrown(Rc::new(value))
}

fn object(class: Class, properties: Vec<Property>, trace: Trace) -> Object {
    Object { id: 77, body: Rc::new(Body { class, properties, items: vec![], trace }) }
}

fn plain(properties: Vec<Property>) -> Object {
    object(Class::Plain, properties, Trace::Absent)
}

fn error(properties: Vec<Property>) -> Exception {
    let object = object(Class::Error(ErrorKind::Generic), properties, Trace::Absent);
    Exception::from_object(object).unwrap()
}

fn traced(entries: Vec<Result<Value, Failure>>) -> Exception {
    let trace = Trace::Captured(Rc::new(entries));
    Exception::from_object(object(Class::Error(ErrorKind::Generic), vec![], trace)).unwrap()
}

fn as_int(value: Option<Value>) -> Option<i32> {
    match value {
        Some(Value::Int(number)) => Some(number),
        _ => None,
    }
}

fn caught(ctx: &mut Ctx) -> Object {
    match ctx.catch() {
        Some(Value::Object(object)) => object,
        other => panic!("expected an object, got {other:?}"),
    }
}

fn message_of(object: &Object) -> Option<String> {
    Exception::from_object(object.clone()).unwrap().message(&mut Ctx::new())
}

#[test]
fn only_error_objects_are_exceptions() {
    assert!(Exception::from_object(plain(vec![])).is_none());
    assert!(Exception::from_object(object(Class::Array, vec![], Trace::Absent)).is_none());
    assert!(Exception::from_object(object(Class::Function, vec![], Trace::Absent)).is_none());
    let range = object(Class::Error(ErrorKind::Range), vec![], Trace::Absent);
    let exception = Exception::from_object(range).unwrap();
    assert_eq!(exception.as_object().body.class, Class::Error(ErrorKind::Range));
    let again = Exception::from_object(exception.clone().into_object()).unwrap();
    assert!(again == exception);
}

#[test]
fn message_of_a_new_exception() {
    let mut ctx = Ctx::new();
    let exception = Exception::from_message(&mut ctx, "something broke").unwrap();
    assert_eq!(exception.message(&mut ctx).as_deref(), Some("something broke"));
    assert_eq!(exception.stack(&mut ctx), None);
    assert!(exception.frames(&mut ctx, None).unwrap().is_empty());
    assert!(ctx.catch().is_none());
}

#[test]
fn long_messages_are_kept_by_a_new_exception() {
    let mut ctx = Ctx::new();
    let message = "\0x".repeat(1000);
    let exception = Exception::from_message(&mut ctx, &message).unwrap();
    assert_eq!(exception.message(&mut ctx), Some(message));
}

#[test]
fn new_exceptions_differ() {
    let mut ctx = Ctx::new();
    let first = Exception::from_message(&mut ctx, "same").unwrap();
    let second = Exception::from_message(&mut ctx, "same").unwrap();
    assert!(first != second);
    assert!(first == first.clone());
    let mut seen = HashSet::new();
    assert!(seen.insert(first.clone()));
    assert!(!seen.insert(first));
    assert!(seen.insert(second));
}

#[test]
fn new_exception_keeps_what_errors_come_with() {
    let mut ctx = Ctx::new();
    ctx.blank.properties.push(data("stack", string("at here")));
    ctx.blank.properties.push(data("message", string("old")));
    let exception = Exception::from_message(&mut ctx, "new").unwrap();
    assert_eq!(exception.stack(&mut ctx).as_deref(), Some("at here"));
    assert_eq!(exception.message(&mut ctx).as_deref(), Some("new"));
    assert_eq!(exception.as_object().body.properties.len(), 2);
}

#[test]
fn refused_error_object() {
    let mut ctx = Ctx::new();
    ctx.refusal = Some(Value::Int(9));
    assert_eq!(Exception::from_message(&mut ctx, "x").err(), Some(Error::Exception));
    assert_eq!(as_int(ctx.catch()), Some(9));
    assert_eq!(Exception::throw_message(&mut ctx, "x"), Error::Exception);
    assert_eq!(as_int(ctx.catch()), Some(9));
    assert_eq!(Exception::throw_type(&mut ctx, "x"), Error::Exception);
    assert_eq!(as_int(ctx.catch()), Some(9));
    assert_eq!(ctx.serial, 0);
}

#[test]
fn no_more_identities() {
    let mut ctx = Ctx::new();
    ctx.serial = u64::MAX;
    assert_eq!(Exception::from_message(&mut ctx, "x").err(), Some(Error::Exception));
    assert!(matches!(ctx.catch(), Some(Value::Null)));
    assert_eq!(Exception::throw_range(&mut ctx, "x"), Error::Exception);
    assert!(matches!(ctx.catch(), Some(Value::Null)));
}

#[test]
fn message_that_fails_writes() {
    let mut ctx = Ctx::new();
    let mut property = data("message", string("fixed"));
    property.write = Write::Fail(thrown(string("no")));
    ctx.blank.properties.push(property);
    assert_eq!(Exception::from_message(&mut ctx, "x").err(), Some(Error::Exception));
    assert!(matches!(ctx.catch(), Some(Value::String(text)) if text == "no"));
    assert_eq!(Exception::throw_message(&mut ctx, "x"), Error::Exception);
    assert!(matches!(ctx.catch(), Some(Value::String(text)) if text == "no"));
}

#[test]
fn message_that_ignores_writes() {
    let mut ctx = Ctx::new();
    let mut property = data("message", string("fixed"));
    property.write = Write::Ignore;
    ctx.blank.properties.push(property);
    let exception = Exception::from_message(&mut ctx, "x").unwrap();
    assert_eq!(exception.message(&mut ctx).as_deref(), Some("fixed"));
}

#[test]
fn written_message_is_listed_where_it_becomes_an_own_property() {
    let listed = |blank: Vec<Property>| {
        let mut ctx = Ctx::new();
        ctx.blank.properties = blank;
        let exception = Exception::from_message(&mut ctx, "new").unwrap();
        assert_eq!(exception.message(&mut ctx).as_deref(), Some("new"));
        let properties = &exception.as_object().body.properties;
        properties.iter().map(|p| (p.name.clone(), p.listed)).collect::<Vec<_>>()
    };
    let unlisted = |write: Write| {
        let mut property = data("message", string(""));
        property.write = write;
        property.listed = false;
        property
    };
    let name = data("name", string("Error"));
    let (message, other) = ("message".to_string(), "name".to_string());
    // none yet
    assert_eq!(listed(vec![]), vec![(message.clone(), true)]);
    // one that is inherited
    assert_eq!(
        listed(vec![unlisted(Write::Add), name.clone()]),
        vec![(other.clone(), true), (message.clone(), true)]
    );
    // one that is the object's own and not enumerable
    assert_eq!(
        listed(vec![unlisted(Write::Replace), name]),
        vec![(message, false), (other, true)]
    );
}

#[test]
fn message_that_a_setter_takes() {
    let mut ctx = Ctx::new();
    let mut message = data("message", string("before"));
    message.write = Write::Run(Rc::new(Aftermath {
        properties: vec![
            data("message", string("SHOUTED")),
            data("stack", string("rewritten")),
        ],
        items: vec![],
        trace: Trace::Captured(Rc::new(vec![Ok(Value::Object(plain(vec![])))])),
    }));
    ctx.blank.properties.push(message);
    let exception = Exception::from_message(&mut ctx, "shouted").unwrap();
    assert_eq!(exception.message(&mut ctx).as_deref(), Some("SHOUTED"));
    assert_eq!(exception.stack(&mut ctx).as_deref(), Some("rewritten"));
    assert_eq!(exception.frames(&mut ctx, None).unwrap().len(), 1);
    assert_eq!(Exception::throw_message(&mut ctx, "shouted"), Error::Exception);
    assert_eq!(message_of(&caught(&mut ctx)).as_deref(), Some("SHOUTED"));
}

#[test]
fn locals_that_are_an_array() {
    let items = vec![Value::Int(10), Value::Int(20)];
    let array = Object {
        id: 5,
        body: Rc::new(Body {
            class: Class::Array,
            properties: vec![data("0", Value::Int(10)), data("1", Value::Int(20))],
            items: items.into_iter().map(Ok).collect(),
            trace: Trace::Absent,
        }),
    };
    let frame = parse_frame(&plain(vec![data("locals", Value::Object(array))])).unwrap();
    assert_eq!(as_int(frame.locals.get("0").cloned()), Some(10));
    assert_eq!(as_int(frame.locals.get("1").cloned()), Some(20));
    assert_eq!(frame.locals.len(), 2);
}

#[test]
fn thrown_message_is_caught() {
    let mut ctx = Ctx::new();
    assert_eq!(Exception::throw_message(&mut ctx, "first"), Error::Exception);
    assert_eq!(Exception::throw_message(&mut ctx, "second"), Error::Exception);
    let object = caught(&mut ctx);
    assert_eq!(object.body.class, Class::Error(ErrorKind::Generic));
    assert_eq!(message_of(&object).as_deref(), Some("second"));
    assert!(ctx.catch().is_none());
}

#[test]
fn thrown_exception_is_caught() {
    let mut ctx = Ctx::new();
    let exception = error(vec![data("message", string("m"))]);
    assert_eq!(exception.clone().throw(&mut ctx), Error::Exception);
    let object = caught(&mut ctx);
    assert!(Exception::from_object(object).unwrap() == exception);
}

#[test]
fn native_errors_have_their_kind_and_message() {
    let throws: Vec<(fn(&mut Ctx, &str) -> Error, ErrorKind)> = vec![
        (Exception::throw_syntax, ErrorKind::Syntax),
        (Exception::throw_type, ErrorKind::Type),
        (Exception::throw_reference, ErrorKind::Reference),
        (Exception::throw_range, ErrorKind::Range),
        (Exception::throw_internal, ErrorKind::Internal),
    ];
    let mut ctx = Ctx::new();
    for (throw, kind) in throws {
        assert_eq!(throw(&mut ctx, "100% wrong: %s"), Error::Exception);
        let object = caught(&mut ctx);
        assert_eq!(object.body.class, Class::Error(kind));
        assert_eq!(message_of(&object).as_deref(), Some("100% wrong: %s"));

        let long = "\u{e9}".repeat(200);
        assert_eq!(throw(&mut ctx, &long), Error::Exception);
        assert_eq!(message_of(&caught(&mut ctx)), Some("\u{e9}".repeat(127)));

        assert_eq!(throw(&mut ctx, "seen\0unseen"), Error::Exception);
        assert_eq!(message_of(&caught(&mut ctx)).as_deref(), Some("seen"));

        assert_eq!(throw(&mut ctx, ""), Error::Exception);
        assert_eq!(message_of(&caught(&mut ctx)).as_deref(), Some(""));
    }
}

#[test]
fn native_errors_come_with_a_trace() {
    let mut ctx = Ctx::new();
    ctx.native.properties.push(data("stack", string("at native")));
    ctx.native.trace =
        Trace::Captured(Rc::new(vec![Ok(Value::Object(plain(vec![data(
            "functionName",
            string("caller"),
        )])))]));
    Exception::throw_reference(&mut ctx, "x is not defined");
    let exception = Exception::from_object(caught(&mut ctx)).unwrap();
    assert_eq!(exception.stack(&mut ctx).as_deref(), Some("at native"));
    let frames = exception.frames(&mut ctx, None).unwrap();
    assert_eq!(frames.len(), 1);
    assert_eq!(frames[0].function_name.as_deref(), Some("caller"));
}

#[test]
fn message_is_converted_to_a_string() {
    let other = |kind: Type, text: Result<String, Failure>| {
        Value::Other(Other { kind, text, integer: None })
    };
    let cases: Vec<(Value, Option<&str>)> = vec![
        (Value::Uninitialized, None),
        (Value::Undefined, None),
        (Value::Null, None),
        (Value::Bool(true), Some("true")),
        (Value::Bool(false), Some("false")),
        (Value::Int(-17), Some("-17")),
        (string("text"), Some("text")),
        (string(""), Some("")),
        (other(Type::Float, Ok("1.5".to_string())), Some("1.5")),
        (Value::Object(plain(vec![])), Some("[object Object]")),
    ];
    for (value, expected) in cases {
        let mut ctx = Ctx::new();
        let exception = error(vec![data("message", value.clone()), data("stack", value)]);
        assert_eq!(exception.message(&mut ctx).as_deref(), expected);
        assert_eq!(exception.stack(&mut ctx).as_deref(), expected);
        assert!(ctx.catch().is_none());
    }
}

#[test]
fn message_that_cannot_be_read_is_none() {
    let mut ctx = Ctx::new();
    assert_eq!(error(vec![]).message(&mut ctx), None);

    let exception = error(vec![
        property("message", Err(thrown(Value::Int(1)))),
        property("stack", Err(thrown(Value::Int(2)))),
    ]);
    assert_eq!(exception.message(&mut ctx), None);
    assert_eq!(as_int(ctx.catch()), Some(1));
    assert_eq!(exception.stack(&mut ctx), None);
    assert_eq!(as_int(ctx.catch()), Some(2));

    let symbol = Value::Other(Other {
        kind: Type::Symbol,
        text: Err(thrown(Value::Int(3))),
        integer: None,
    });
    assert_eq!(error(vec![data("message", symbol)]).message(&mut ctx), None);
    assert_eq!(as_int(ctx.catch()), Some(3));

    let malformed =
        Value::Other(Other { kind: Type::String, text: Err(Failure::Utf8), integer: None });
    assert_eq!(error(vec![data("message", malformed)]).message(&mut ctx), None);
    assert!(ctx.catch().is_none());
}

#[test]
fn display_of_errors() {
    let mut ctx = Ctx::new();
    assert_eq!(error(vec![]).display(&mut ctx), "Error:");
    let message = || data("message", string("boom"));
    let stack = || data("stack", string("    at f\n"));
    assert_eq!(error(vec![message()]).display(&mut ctx), "Error: boom");
    assert_eq!(error(vec![stack()]).display(&mut ctx), "Error:\n    at f\n");
    assert_eq!(error(vec![message(), stack()]).display(&mut ctx), "Error: boom\n    at f\n");
    assert_eq!(
        pieces(Some("m".to_string()), Some("s".to_string())),
        vec!["Error:", " ", "m", "\n", "s"]
    );
    assert_eq!(error(vec![stack()]).display_pieces(&mut ctx), vec!["Error:", "\n", "    at f\n"]);
}

#[test]
fn debug_of_errors() {
    let mut ctx = Ctx::new();
    assert_eq!(error(vec![]).debug(&mut ctx), "Exception { message: None, stack: None }");
    let exception =
        error(vec![data("message", string("say \"hi\"\n")), data("stack", string("at f"))]);
    assert_eq!(
        exception.debug(&mut ctx),
        "Exception { message: Some(\"say \\\"hi\\\"\\n\"), stack: Some(\"at f\") }"
    );
    assert_eq!(
        debug_text(Some("'q'".to_string()), None),
        "Exception { message: Some('q'), stack: None }"
    );
}

#[test]
fn frame_limits() {
    assert_eq!(frame_limit(None), -1);
    assert_eq!(frame_limit(Some(0)), 0);
    assert_eq!(frame_limit(Some(12)), 12);
    assert_eq!(frame_limit(Some(i32::MAX as usize)), i32::MAX);
    assert_eq!(frame_limit(Some(i32::MAX as usize + 1)), i32::MAX);
    assert_eq!(frame_limit(Some(usize::MAX)), i32::MAX);
}

#[test]
fn frame_without_properties() {
    let frame = parse_frame(&plain(vec![])).unwrap();
    assert_eq!(frame.function_name, None);
    assert_eq!(frame.file_name, None);
    assert_eq!(frame.line_number, None);
    assert_eq!(frame.column_number, None);
    assert!(!frame.native);
    assert!(frame.locals.is_empty());
}

#[test]
fn frame_with_all_properties() {
    // A record is taken as it is: native with variables, and with a name that occurs twice.
    let mut hidden = data("hidden", Value::Int(5));
    hidden.listed = false;
    let locals =
        plain(vec![
            data("a", Value::Int(1)),
            hidden,
            data("b", Value::Null),
            data("a", Value::Int(2)),
        ]);
    let frame = parse_frame(&plain(vec![
        data("functionName", Value::Int(12)),
        data("fileName", string("main.js")),
        data("lineNumber", Value::Int(3)),
        data(
            "columnNumber",
            Value::Other(Other { kind: Type::Float, text: Err(Failure::Utf8), integer: Some(4) }),
        ),
        data("native", Value::Bool(true)),
        data("locals", Value::Object(locals)),
    ]))
    .unwrap();
    assert_eq!(frame.function_name.as_deref(), Some("12"));
    assert_eq!(frame.file_name.as_deref(), Some("main.js"));
    assert_eq!(frame.line_number, Some(3));
    assert_eq!(frame.column_number, Some(4));
    assert!(frame.native);
    assert_eq!(as_int(frame.locals.get("a").cloned()), Some(2));
    assert!(matches!(frame.locals.get("b"), Some(Value::Null)));
    assert!(!frame.locals.contains_key("hidden"));
    let copy = frame.clone();
    assert_eq!(copy.file_name.as_deref(), Some("main.js"));
    assert_eq!(as_int(copy.locals.get("a").cloned()), Some(2));
}

#[test]
fn native_frame_is_bare() {
    let mut ctx = Ctx::new();
    let native = plain(vec![
        data("functionName", string("push")),
        data("fileName", Value::Null),
        data("lineNumber", Value::Int(-1)),
        data("columnNumber", Value::Int(-1)),
        data("native", Value::Bool(true)),
        data("locals", Value::Object(plain(vec![]))),
    ]);
    let script = plain(vec![data(
        "locals",
        Value::Object(plain(vec![data("x", Value::Int(1))])),
    )]);
    let exception = traced(vec![Ok(Value::Object(native)), Ok(Value::Object(script))]);
    let frames = exception.frames(&mut ctx, None).unwrap();
    assert_eq!(frames.len(), 2);
    assert!(frames[0].native);
    assert_eq!(frames[0].file_name, None);
    assert_eq!(frames[0].line_number, None);
    assert!(frames[0].locals.is_empty());
    assert!(frames[1].locals.contains_key("x"));
    assert!(exception.locals(&mut ctx).unwrap().is_empty());
}

#[test]
fn locals_are_the_listed_properties() {
    let mut hidden = data("hidden", Value::Int(5));
    hidden.listed = false;
    let object = plain(vec![data("a", Value::Int(1)), hidden, data("b", Value::Int(2))]);
    let record = plain(vec![data("locals", Value::Object(object.clone()))]);
    let locals = parse_frame(&record).unwrap().locals;
    let mut names = locals.names();
    names.sort();
    assert_eq!(names, vec!["a", "b"]);
    for name in names {
        assert_eq!(as_int(locals.get(&name).cloned()), object.get_int(&name).unwrap());
    }
}

#[test]
fn frame_positions() {
    let line = |n: i32| {
        parse_frame(&plain(vec![
            data("lineNumber", Value::Int(n)),
            data("columnNumber", Value::Int(n)),
        ]))
        .unwrap()
    };
    assert_eq!(line(-1).line_number, None);
    assert_eq!(line(i32::MIN).column_number, None);
    assert_eq!(line(0).line_number, Some(0));
    assert_eq!(line(i32::MAX).column_number, Some(2147483647));
}

#[test]
fn first_property_that_cannot_be_read_fails_a_frame() {
    let fail = |value: i32| Err(thrown(Value::Int(value)));
    let names = ["functionName", "fileName", "lineNumber", "columnNumber", "native", "locals"];
    for first in 0..names.len() {
        let properties = (first..names.len())
            .rev()
            .map(|i| property(names[i], fail(i as i32)))
            .collect();
        match parse_frame(&plain(properties)).err() {
            Some(Failure::Thrown(value)) => {
                assert_eq!(as_int(Some((*value).clone())), Some(first as i32));
            }
            other => panic!("expected a thrown value, got {other:?}"),
        }
    }
}

#[test]
fn frame_properties_of_the_wrong_type() {
    let mut ctx = Ctx::new();
    let cases: Vec<(&str, Value, Error)> = vec![
        ("lineNumber", string("3"), Error::FromJs { from: Type::String, to: Type::Int }),
        ("columnNumber", Value::Bool(true), Error::FromJs { from: Type::Bool, to: Type::Int }),
        ("native", Value::Int(1), Error::FromJs { from: Type::Int, to: Type::Bool }),
        ("locals", Value::Int(1), Error::FromJs { from: Type::Int, to: Type::Object }),
        (
            "functionName",
            Value::Other(Other { kind: Type::String, text: Err(Failure::Utf8), integer: None }),
            Error::Utf8,
        ),
    ];
    for (name, value, expected) in cases {
        let exception = traced(vec![Ok(Value::Object(plain(vec![data(name, value)])))]);
        assert_eq!(exception.frames(&mut ctx, None).err(), Some(expected));
        assert_eq!(exception.locals(&mut ctx).err(), Some(expected));
        assert!(ctx.catch().is_none());
    }
    let types: Vec<(Value, Type)> = vec![
        (Value::Uninitialized, Type::Uninitialized),
        (Value::Undefined, Type::Undefined),
        (Value::Null, Type::Null),
        (string("x"), Type::String),
        (
            Value::Other(Other { kind: Type::BigInt, text: Err(Failure::Utf8), integer: None }),
            Type::BigInt,
        ),
    ];
    for (value, from) in types {
        let exception = traced(vec![Ok(value)]);
        let expected = Error::FromJs { from, to: Type::Object };
        assert_eq!(exception.frames(&mut ctx, None).err(), Some(expected));
    }
}

#[test]
fn types_of_objects() {
    let kind = |class: Class| Value::Object(object(class, vec![], Trace::Absent)).type_of();
    assert_eq!(kind(Class::Plain), Type::Object);
    assert_eq!(kind(Class::Array), Type::Array);
    assert_eq!(kind(Class::Function), Type::Function);
    assert_eq!(kind(Class::Error(ErrorKind::Type)), Type::Exception);
}

#[test]
fn later_frames_do_not_matter_to_earlier_ones() {
    let mut ctx = Ctx::new();
    let exception = traced(vec![
        Ok(Value::Object(plain(vec![data("functionName", string("inner"))]))),
        Err(thrown(Value::Int(8))),
        Err(thrown(Value::Int(9))),
    ]);
    assert_eq!(exception.frames(&mut ctx, Some(1)).unwrap().len(), 1);
    assert!(exception.locals(&mut ctx).unwrap().is_empty());
    assert!(ctx.catch().is_none());
    assert_eq!(exception.frames(&mut ctx, Some(2)).err(), Some(Error::Exception));
    assert_eq!(as_int(ctx.catch()), Some(8));
    assert_eq!(exception.frames(&mut ctx, None).err(), Some(Error::Exception));
    assert_eq!(as_int(ctx.catch()), Some(8));
}

#[test]
fn frames_that_cannot_be_had() {
    let mut ctx = Ctx::new();
    let failing = object(
        Class::Error(ErrorKind::Generic),
        vec![],
        Trace::Fails(thrown(Value::Int(6))),
    );
    let exception = Exception::from_object(failing).unwrap();
    assert_eq!(exception.frames(&mut ctx, Some(0)).err(), Some(Error::Exception));
    assert_eq!(as_int(ctx.catch()), Some(6));
    assert_eq!(exception.locals(&mut ctx).err(), Some(Error::Exception));
    assert_eq!(as_int(ctx.catch()), Some(6));
    assert!(parse_frames(None).unwrap().is_empty());
    assert!(parse_frames(Some(&[])).unwrap().is_empty());
}

#[test]
fn locals_are_those_of_the_first_frame() {
    let frame = |value: i32| {
        let locals = plain(vec![data("v", Value::Int(value))]);
        Ok(Value::Object(plain(vec![data("locals", Value::Object(locals))])))
    };
    let mut ctx = Ctx::new();
    let exception = traced(vec![frame(1), frame(2), frame(3)]);
    let frames = exception.frames(&mut ctx, Some(usize::MAX)).unwrap();
    assert_eq!(frames.len(), 3);
    assert_eq!(as_int(frames[2].locals.get("v").cloned()), Some(3));
    let locals = exception.locals(&mut ctx).unwrap();
    assert_eq!(as_int(locals.get("v").cloned()), Some(1));
}

#[test]
fn locals_map() {
    let mut locals = Locals::new();
    assert!(locals.is_empty());
    assert!(locals.get("a").is_none());
    assert!(locals.insert("a".to_string(), Value::Int(1)).is_none());
    assert_eq!(as_int(locals.insert("a".to_string(), Value::Int(2))), Some(1));
    assert!(!locals.is_empty());
    assert_eq!(as_int(locals.get("a").cloned()), Some(2));
    assert!(locals.contains_key("a"));
    assert!(!locals.contains_key("b"));
    assert_eq!(locals.len(), 1);
    assert!(locals.insert("b".to_string(), Value::Null).is_none());
    assert_eq!(locals.len(), 2);
    let mut names = locals.names();
    names.sort();
    assert_eq!(names, vec!["a", "b"]);
    assert!(Locals::new().names().is_empty());
    assert_eq!(Locals::new().len(), 0);
}
