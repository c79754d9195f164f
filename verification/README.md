# js_exception

Errors of a script, as the host program of a script engine handles them: making and
throwing errors, reading their message and their stack, and reading the stack frames that
the engine captures with them, down to the local variables of each frame.

- `src/value.rs` script values as plain data
- `src/convert.rs` conversions of values to texts, integers, flags and objects
- `src/object.rs` reading and writing properties
- `src/text.rs` cutting a message to size, and the C string that carries it
- `src/ctx.rs` the pending exception and the making of error objects
- `src/locals.rs` local variables by name, in a `hashbrown::HashMap`
- `src/frame.rs` captured stack frames
- `src/exception.rs` the errors themselves
- `src/display.rs` errors as texts
- `app/` the same operations on a live engine

What each function does is stated in its contract and proved with Verus; hashing is the
exception, of which nothing is stated. Properties that
span functions are the public proof functions whose names start with `law_`.
