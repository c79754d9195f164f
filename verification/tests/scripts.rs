//! Errors that scripts throw, from the throw to what can be read off them.
//!
//! The engine is played by `thrown_by`, which knows the error that each script throws,
//! with the stack frames that are captured with it.
use js_exception::ctx::{Ctx, Error};
use js_exception::exception::Exception;
use js_exception::frame::Frame;
use js_exception::value::{Body, Class, ErrorKind, Failure, Object, Property, Trace, Value, Write};
use std::rc::Rc;

fn data(name: &str, value: Value) -> Property {
    Property {
        name: name.to_string(),
        read: Ok(value),
        text: Ok("[object Object]".to_string()),
        write: Write::Replace,
        listed: true,
    }
}

fn text(text: &str) -> Value {
    Value::String(text.to_string())
}

fn object(id: u64, class: Class, properties: Vec<Property>, items: Vec<Value>) -> Value {
    Value::Object(Object {
        id,
        body: Rc::new(Body {
            class,
            properties,
            items: items.into_iter().map(Ok).collect(),
            trace: Trace::Absent,
        }),
    })
}

fn array(id: u64, items: Vec<Value>) -> Value {
    let properties =
        items.iter().enumerate().map(|(i, item)| data(&i.to_string(), item.clone())).collect();
    object(id, Class::Array, properties, items)
}

fn site(name: Value, line: i32, column: i32, locals: Vec<(&str, Value)>) -> Value {
    let locals = locals.into_iter().map(|(name, value)| data(name, value)).collect();
    object(
        10,
        Class::Plain,
        vec![
            data("functionName", name),
            data("fileName", text("eval_script")),
            data("lineNumber", Value::Int(line)),
            data("columnNumber", Value::Int(column)),
            data("native", Value::Bool(false)),
            data("locals", object(11, Class::Plain, locals, vec![])),
        ],
        vec![],
    )
}

fn error(kind: ErrorKind, message: &str, sites: Vec<Value>, capture: bool) -> Object {
    let entries: Vec<Result<Value, Failure>> = sites.into_iter().map(Ok).collect();
    Object {
        id: 1,
        body: Rc::new(Body {
            class: Class::Error(kind),
            properties: vec![
                data("message", text(message)),
                data("stack", text("    at <eval> (eval_script:1:1)\n")),
            ],
            items: vec![],
            trace: if capture { Trace::Captured(Rc::new(entries)) } else { Trace::Absent },
        }),
    }
}

fn thrown_by(script: &str, capture: bool) -> Object {
    let eval = || site(text("<eval>"), 1, 1, vec![]);
    let boom = |mut sites: Vec<Value>| {
        sites.push(eval());
        error(ErrorKind::Generic, "boom", sites, capture)
    };
    let number = Value::Int;
    match script {
        "function inner(x) { throw new Error('boom'); }; inner(7)" => {
            boom(vec![site(text("inner"), 1, 27, vec![("x", number(7))])])
        }
        "function inner(x, y) { let z = x + y; throw new Error('boom'); }; inner(3, 4)" => {
            boom(vec![site(
                text("inner"),
                1,
                45,
                vec![("x", number(3)), ("y", number(4)), ("z", number(7))],
            )])
        }
        "function inner(a) { throw new Error('boom'); }\n\
                     function outer(b) { let c = b + 1; return inner(c); }\n\
                     outer(10);" => boom(vec![
            site(text("inner"), 1, 27, vec![("a", number(11))]),
            site(text("outer"), 2, 43, vec![("b", number(10)), ("c", number(11))]),
        ]),
        "function a() { throw new Error('boom'); }\n\
                     function b() { return a(); }\n\
                     function c() { return b(); }\n\
                     c();" => boom(vec![
            site(text("a"), 1, 22, vec![]),
            site(text("b"), 2, 23, vec![]),
            site(text("c"), 3, 23, vec![]),
        ]),
        "function outer() {\n\
                       let state = 42;\n\
                       function inner() { state += 1; throw new Error('boom'); }\n\
                       inner();\n\
                     }\n\
                     outer();" => boom(vec![
            site(text("inner"), 3, 38, vec![]),
            site(text("outer"), 4, 1, vec![("state", number(43))]),
        ]),
        "function f() { throw new Error('boom'); let z = 1; }\n\
                     f();" => boom(vec![site(text("f"), 1, 22, vec![])]),
        "function f( {" => error(
            ErrorKind::Syntax,
            "expecting ')'",
            vec![object(
                12,
                Class::Plain,
                vec![
                    data("functionName", Value::Null),
                    data("fileName", text("eval_script")),
                    data("lineNumber", number(1)),
                    data("columnNumber", number(13)),
                    data("native", Value::Bool(false)),
                ],
                vec![],
            )],
            capture,
        ),
        "function named() { throw new Error('boom'); }\n\
                     named();" => boom(vec![site(text("named"), 1, 26, vec![])]),
        "function f() {\n\
                       let obj = { a: 1, b: [10, 20, 30] };\n\
                       throw new Error('boom');\n\
                     }\n\
                     f();" => {
            let list = array(14, vec![number(10), number(20), number(30)]);
            let obj = object(13, Class::Plain, vec![data("a", number(1)), data("b", list)], vec![]);
            boom(vec![site(text("f"), 3, 7, vec![("obj", obj)])])
        }
        "function f() { let big = new Array(1000).fill('x'); throw new Error('boom'); } f();" => {
            let big = array(20, vec![text("x"); 1000]);
            boom(vec![site(text("f"), 1, 59, vec![("big", big)])])
        }
        "(function() { throw new Error('boom'); })()" => {
            boom(vec![site(Value::Null, 1, 21, vec![])])
        }
        "const f = (x) => { let y = x * 2; throw new Error('boom'); };\n\
                     f(7);" => {
            boom(vec![site(text("f"), 1, 41, vec![("x", number(7)), ("y", number(14))])])
        }
        "function inner() { throw new Error('boom'); } inner();" => {
            error(
                ErrorKind::Generic,
                "boom",
                vec![site(text("inner"), 1, 26, vec![]), eval()],
                capture,
            )
        }
        "(async function f(a) { let b = a + 1; throw new Error('async boom'); })(5)" => error(
            ErrorKind::Generic,
            "async boom",
            vec![site(text("f"), 1, 45, vec![("a", number(5)), ("b", number(6))])],
            capture,
        ),
        "async function inner() {\n\
                       const userId = 'u_123';\n\
                       const attempt = 2;\n\
                       throw new Error('kaboom');\n\
                     }\n\
                     async function trace() {\n\
                       const span = { id: 'abc' };\n\
                       const options = { foo: 1 };\n\
                       try { await inner(); }\n\
                       catch (e) { return e; }\n\
                     }\n\
                     trace();" => error(
            ErrorKind::Generic,
            "kaboom",
            vec![
                site(
                    text("inner"),
                    4,
                    7,
                    vec![("userId", text("u_123")), ("attempt", number(2))],
                ),
                site(
                    text("trace"),
                    9,
                    7,
                    vec![
                        (
                            "span",
                            object(15, Class::Plain, vec![data("id", text("abc"))], vec![]),
                        ),
                        (
                            "options",
                            object(16, Class::Plain, vec![data("foo", number(1))], vec![]),
                        ),
                    ],
                ),
            ],
            capture,
        ),
        other => panic!("unknown script: {other}"),
    }
}

struct Runtime {
    ctx: Ctx,
    capture: bool,
}

impl Runtime {
    fn eval(&mut self, script: &str) -> Error {
        self.ctx.throw(Value::Object(thrown_by(script, self.capture)))
    }

    fn catch_exception(&mut self, err: Error) -> Exception {
        match err {
            Error::Exception => match self.ctx.catch() {
                Some(Value::Object(object)) => {
                    Exception::from_object(object).expect("expected an Error object")
                }
                other => panic!("expected an object, got {other:?}"),
            },
            other => panic!("expected Error::Exception, got {other:?}"),
        }
    }
}

fn with_capture<R>(capture: bool, f: impl FnOnce(&mut Runtime) -> R) -> R {
    f(&mut Runtime { ctx: Ctx::new(), capture })
}

fn as_int(value: &Value) -> Option<i32> {
    match value {
        Value::Int(number) => Some(*number),
        _ => None,
    }
}

fn int_local(frame: &Frame, name: &str) -> Option<i32> {
    frame.locals.get(name).and_then(as_int)
}

#[test]
fn capture_off_returns_empty() {
    with_capture(false, |rt| {
        let err = rt.eval("function inner(x) { throw new Error('boom'); }; inner(7)");
        let exc = rt.catch_exception(err);
        assert!(exc.locals(&mut rt.ctx).unwrap().is_empty());
        assert!(exc.frames(&mut rt.ctx, None).unwrap().is_empty());
    });
}

#[test]
fn innermost_locals_capture_args() {
    with_capture(true, |rt| {
        let err = rt.eval(
            "function inner(x, y) { let z = x + y; throw new Error('boom'); }; inner(3, 4)",
        );
        let exc = rt.catch_exception(err);
        let locals = exc.locals(&mut rt.ctx).unwrap();
        assert_eq!(as_int(locals.get("x").unwrap()), Some(3));
        assert_eq!(as_int(locals.get("y").unwrap()), Some(4));
        assert_eq!(as_int(locals.get("z").unwrap()), Some(7));
    });
}

#[test]
fn frames_walks_full_stack() {
    with_capture(true, |rt| {
        let err = rt.eval(
            "function inner(a) { throw new Error('boom'); }\n\
                     function outer(b) { let c = b + 1; return inner(c); }\n\
                     outer(10);",
        );
        let exc = rt.catch_exception(err);
        let frames = exc.frames(&mut rt.ctx, None).unwrap();
        assert!(
            frames.len() >= 2,
            "expected at least 2 frames, got {}",
            frames.len()
        );
        // innermost first
        let inner = &frames[0];
        assert_eq!(inner.function_name.as_deref(), Some("inner"));
        assert_eq!(int_local(inner, "a"), Some(11));

        let outer = &frames[1];
        assert_eq!(outer.function_name.as_deref(), Some("outer"));
        assert_eq!(int_local(outer, "b"), Some(10));
        assert_eq!(int_local(outer, "c"), Some(11));
    });
}

#[test]
fn frames_depth_limits_count() {
    with_capture(true, |rt| {
        let err = rt.eval(
            "function a() { throw new Error('boom'); }\n\
                     function b() { return a(); }\n\
                     function c() { return b(); }\n\
                     c();",
        );
        let exc = rt.catch_exception(err);

        let all = exc.frames(&mut rt.ctx, None).unwrap();
        assert!(all.len() >= 3);

        let one = exc.frames(&mut rt.ctx, Some(1)).unwrap();
        assert_eq!(one.len(), 1);
        assert_eq!(one[0].function_name.as_deref(), Some("a"));

        let two = exc.frames(&mut rt.ctx, Some(2)).unwrap();
        assert_eq!(two.len(), 2);
        assert_eq!(two[1].function_name.as_deref(), Some("b"));

        let none = exc.frames(&mut rt.ctx, Some(0)).unwrap();
        assert_eq!(none.len(), 0);
    });
}

#[test]
fn captured_closure_var_visible_in_outer() {
    with_capture(true, |rt| {
        // `state` is captured by `inner`, and still a variable of `outer`.
        let err = rt.eval(
            "function outer() {\n\
                       let state = 42;\n\
                       function inner() { state += 1; throw new Error('boom'); }\n\
                       inner();\n\
                     }\n\
                     outer();",
        );
        let exc = rt.catch_exception(err);
        let frames = exc.frames(&mut rt.ctx, None).unwrap();
        let outer = frames
            .iter()
            .find(|f| f.function_name.as_deref() == Some("outer"))
            .expect("outer frame missing");
        assert_eq!(int_local(outer, "state"), Some(43));
    });
}

#[test]
fn tdz_uninitialized_is_omitted() {
    with_capture(true, |rt| {
        // `z` is declared but not yet executed when the throw happens.
        let err = rt.eval(
            "function f() { throw new Error('boom'); let z = 1; }\n\
                     f();",
        );
        let exc = rt.catch_exception(err);
        let locals = exc.locals(&mut rt.ctx).unwrap();
        assert!(!locals.contains_key("z"));
    });
}

#[test]
fn parse_error_with_capture_does_not_crash() {
    // The frame of a parse error names a file and no function, and has no variables.
    with_capture(true, |rt| {
        let err = rt.eval("function f( {");
        let exc = rt.catch_exception(err);
        let frames = exc.frames(&mut rt.ctx, None).unwrap();
        assert_eq!(frames.len(), 1);
        assert_eq!(frames[0].function_name, None);
        assert_eq!(frames[0].file_name.as_deref(), Some("eval_script"));
        assert!(frames[0].locals.is_empty());
    });
}

#[test]
fn frame_metadata_present() {
    with_capture(true, |rt| {
        let err = rt.eval(
            "function named() { throw new Error('boom'); }\n\
                     named();",
        );
        let exc = rt.catch_exception(err);
        let frame = exc.frames(&mut rt.ctx, Some(1)).unwrap().pop().unwrap();
        assert_eq!(frame.function_name.as_deref(), Some("named"));
        assert!(!frame.native);
        assert!(frame.line_number.is_some());
        assert!(frame.column_number.is_some());
    });
}

#[test]
fn object_locals_captured() {
    with_capture(true, |rt| {
        let err = rt.eval(
            "function f() {\n\
                       let obj = { a: 1, b: [10, 20, 30] };\n\
                       throw new Error('boom');\n\
                     }\n\
                     f();",
        );
        let exc = rt.catch_exception(err);
        let locals = exc.locals(&mut rt.ctx).unwrap();
        let obj = locals.get("obj").expect("obj missing");
        let obj_obj = obj.to_object().expect("obj is not an object");
        assert_eq!(obj_obj.get_int("a").unwrap(), Some(1));
        let arr = obj_obj.get_object("b").unwrap().unwrap();
        assert_eq!(arr.body.items.len(), 3);
        assert_eq!(as_int(arr.body.items[1].as_ref().unwrap()), Some(20));
    });
}

#[test]
fn dropping_error_releases_locals() {
    with_capture(true, |rt| {
        let held;
        {
            let err = rt.eval(
                "function f() { let big = new Array(1000).fill('x'); throw new Error('boom'); } f();",
            );
            let exc = rt.catch_exception(err);
            let before = exc.locals(&mut rt.ctx).unwrap();
            assert!(before.contains_key("big"));
            let big = before.get("big").unwrap().to_object().unwrap();
            assert_eq!(big.body.items.len(), 1000);
            held = Rc::downgrade(&big.body);
            drop(big);
            drop(before);
            assert!(held.upgrade().is_some());
            // Now drop the exception
            drop(exc);
        }
        assert!(held.upgrade().is_none());
    });
}

#[test]
fn anonymous_function_frame() {
    with_capture(true, |rt| {
        let err = rt.eval("(function() { throw new Error('boom'); })()");
        let exc = rt.catch_exception(err);
        let frame = exc.frames(&mut rt.ctx, Some(1)).unwrap().pop().unwrap();
        // anonymous functions have no name
        assert!(frame.function_name.is_none(), "got {:?}", frame.function_name);
    });
}

#[test]
fn arrow_function_frame() {
    with_capture(true, |rt| {
        let err = rt.eval(
            "const f = (x) => { let y = x * 2; throw new Error('boom'); };\n\
                     f(7);",
        );
        let exc = rt.catch_exception(err);
        let frames = exc.frames(&mut rt.ctx, None).unwrap();
        assert!(!frames.is_empty());
        let inner = &frames[0];
        assert_eq!(int_local(inner, "x"), Some(7));
        assert_eq!(int_local(inner, "y"), Some(14));
    });
}

#[test]
fn backtrace_barrier_stops_capture() {
    with_capture(true, |rt| {
        // The script runs behind a barrier: frames outside it are not captured.
        let err = rt.eval("function inner() { throw new Error('boom'); } inner();");
        let exc = rt.catch_exception(err);
        let frames = exc.frames(&mut rt.ctx, None).unwrap();
        assert!(
            frames.iter().all(|f| f.function_name.as_deref() != Some("outer")),
            "barrier did not stop trace: {:?}",
            frames.iter().map(|f| f.function_name.clone()).collect::<Vec<_>>()
        );
    });
}

#[test]
fn locals_captured_inside_async_function() {
    with_capture(true, |rt| {
        let err =
            rt.eval("(async function f(a) { let b = a + 1; throw new Error('async boom'); })(5)");
        let exc = rt.catch_exception(err);
        let locals = exc.locals(&mut rt.ctx).unwrap();
        assert_eq!(locals.get("a").and_then(as_int), Some(5));
        assert_eq!(locals.get("b").and_then(as_int), Some(6));
    });
}

#[test]
fn locals_survive_async_rethrow() {
    with_capture(true, |rt| {
        let err = rt.eval(
            "async function inner() {\n\
                       const userId = 'u_123';\n\
                       const attempt = 2;\n\
                       throw new Error('kaboom');\n\
                     }\n\
                     async function trace() {\n\
                       const span = { id: 'abc' };\n\
                       const options = { foo: 1 };\n\
                       try { await inner(); }\n\
                       catch (e) { return e; }\n\
                     }\n\
                     trace();",
        );
        let exc = rt.catch_exception(err);
        let locals = exc.locals(&mut rt.ctx).unwrap();

        // The variables of the frame that threw are there.
        assert!(
            locals.contains_key("userId"),
            "lost original locals after await rethrow; got keys: {:?}",
            locals.names()
        );
        assert!(locals.contains_key("attempt"));

        // Those of the frame that awaited it are not.
        assert!(!locals.contains_key("span"));
        assert!(!locals.contains_key("options"));
    });
}
