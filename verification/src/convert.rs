//! Conversions of a script value to a text, an integer, a flag or an object.
use crate::value::{copy_text, Class, Failure, Object, Type, Value};
use vstd::prelude::*;
use vstd::string::StringExecFns;

verus! {

/// The character of a decimal digit.
pub open spec fn digit(d: nat) -> char {
    (('0' as nat) + d) as char
}

/// The decimal digits of `n`, without leading zeros.
pub open spec fn digits(n: nat) -> Seq<char>
    decreases n,
{
    if n < 10 {
        seq![digit(n)]
    } else {
        digits(n / 10).push(digit(n % 10))
    }
}

/// An integer as a script writes it.
pub open spec fn decimal(n: int) -> Seq<char> {
    if n < 0 {
        seq!['-'] + digits((-n) as nat)
    } else {
        digits(n as nat)
    }
}

fn digit_text(d: u32) -> (text: &'static str)
    requires
        d < 10,
    ensures
        text@ == seq![digit(d as nat)],
{
    proof {
        reveal_strlit("0");
        reveal_strlit("1");
        reveal_strlit("2");
        reveal_strlit("3");
        reveal_strlit("4");
        reveal_strlit("5");
        reveal_strlit("6");
        reveal_strlit("7");
        reveal_strlit("8");
        reveal_strlit("9");
    }
    let text: &'static str = if d == 0 {
        "0"
    } else if d == 1 {
        "1"
    } else if d == 2 {
        "2"
    } else if d == 3 {
        "3"
    } else if d == 4 {
        "4"
    } else if d == 5 {
        "5"
    } else if d == 6 {
        "6"
    } else if d == 7 {
        "7"
    } else if d == 8 {
        "8"
    } else {
        "9"
    };
    assert(text@ =~= seq![digit(d as nat)]);
    text
}

fn digits_text(n: u32) -> (text: String)
    ensures
        text@ == digits(n as nat),
    decreases n,
{
    if n < 10 {
        digit_text(n).to_owned()
    } else {
        let mut text: String = digits_text(n / 10);
        text.append(digit_text(n % 10));
        assert(text@ =~= digits((n / 10) as nat).push(digit((n % 10) as nat)));
        text
    }
}

/// The decimal text of an integer.
pub fn decimal_text(n: i32) -> (text: String)
    ensures
        text@ == decimal(n as int),
{
    if n < 0 {
        let mut text: String = "-".to_owned();
        let magnitude: i64 = -(n as i64);
        let rest: String = digits_text(magnitude as u32);
        text.append(rest.as_str());
        proof {
            reveal_strlit("-");
            assert(text@ =~= seq!['-'] + digits(magnitude as nat));
        }
        text
    } else {
        digits_text(n as u32)
    }
}

/// Stands for a missing value.
pub open spec fn is_void(value: Value) -> bool {
    value is Uninitialized || value is Undefined || value is Null
}

/// The type of the objects of a class.
pub open spec fn class_type(class: Class) -> Type {
    match class {
        Class::Plain => Type::Object,
        Class::Array => Type::Array,
        Class::Function => Type::Function,
        Class::Error(_) => Type::Exception,
    }
}

/// The type of a value.
pub open spec fn type_of(value: Value) -> Type {
    match value {
        Value::Uninitialized => Type::Uninitialized,
        Value::Undefined => Type::Undefined,
        Value::Null => Type::Null,
        Value::Bool(_) => Type::Bool,
        Value::Int(_) => Type::Int,
        Value::String(_) => Type::String,
        Value::Other(other) => other.kind,
        Value::Object(object) => class_type(object.body.class),
    }
}

/// The outcome of a conversion to a string that the engine made.
pub open spec fn given_text(text: Result<String, Failure>) -> Result<Option<Seq<char>>, Failure> {
    match text {
        Ok(text) => Ok(Some(text@)),
        Err(failure) => Err(failure),
    }
}

/// A value as an optional text: a missing value gives none, any other is converted to a
/// string. `object_text` is what that conversion gives for an object.
pub open spec fn text_of(value: Value, object_text: Result<String, Failure>) -> Result<
    Option<Seq<char>>,
    Failure,
> {
    match value {
        Value::Bool(flag) => Ok(
            Some(
                if flag {
                    "true"@
                } else {
                    "false"@
                },
            ),
        ),
        Value::Int(number) => Ok(Some(decimal(number as int))),
        Value::String(text) => Ok(Some(text@)),
        Value::Other(other) => given_text(other.text),
        Value::Object(_) => given_text(object_text),
        _ => Ok(None),
    }
}

/// The failure of a value that is not of the type that was asked for.
pub open spec fn mismatch(value: Value, to: Type) -> Failure {
    Failure::FromJs { from: type_of(value), to }
}

/// A value as an optional integer.
pub open spec fn int_of(value: Value) -> Result<Option<i32>, Failure> {
    if is_void(value) {
        Ok(None)
    } else {
        match value {
            Value::Int(number) => Ok(Some(number)),
            Value::Other(other) if other.integer is Some => Ok(other.integer),
            _ => Err(mismatch(value, Type::Int)),
        }
    }
}

/// A value as an optional flag.
pub open spec fn bool_of(value: Value) -> Result<Option<bool>, Failure> {
    if is_void(value) {
        Ok(None)
    } else {
        match value {
            Value::Bool(flag) => Ok(Some(flag)),
            _ => Err(mismatch(value, Type::Bool)),
        }
    }
}

/// A value as an object.
pub open spec fn object_of(value: Value) -> Result<Object, Failure> {
    match value {
        Value::Object(object) => Ok(object),
        _ => Err(mismatch(value, Type::Object)),
    }
}

/// A value as an optional object.
pub open spec fn optional_object_of(value: Value) -> Result<Option<Object>, Failure> {
    if is_void(value) {
        Ok(None)
    } else {
        match object_of(value) {
            Ok(object) => Ok(Some(object)),
            Err(failure) => Err(failure),
        }
    }
}

/// What an optional text holds.
pub open spec fn text_view(text: Option<String>) -> Option<Seq<char>> {
    match text {
        Some(text) => Some(text@),
        None => None,
    }
}

/// What a text that was asked for turned out to be.
pub open spec fn text_outcome(text: Result<Option<String>, Failure>) -> Result<
    Option<Seq<char>>,
    Failure,
> {
    match text {
        Ok(text) => Ok(text_view(text)),
        Err(failure) => Err(failure),
    }
}

impl Value {
    /// The type of the value.
    pub fn type_of(&self) -> (kind: Type)
        ensures
            kind == type_of(*self),
    {
        match self {
            Value::Uninitialized => Type::Uninitialized,
            Value::Undefined => Type::Undefined,
            Value::Null => Type::Null,
            Value::Bool(_) => Type::Bool,
            Value::Int(_) => Type::Int,
            Value::String(_) => Type::String,
            Value::Other(other) => other.kind,
            Value::Object(object) => match object.body.class {
                Class::Plain => Type::Object,
                Class::Array => Type::Array,
                Class::Function => Type::Function,
                Class::Error(_) => Type::Exception,
            },
        }
    }

    /// The value as an optional text: a missing value gives none, any other is converted
    /// to a string. `object_text` is what that conversion gives for an object.
    pub fn to_text(&self, object_text: &Result<String, Failure>) -> (text: Result<
        Option<String>,
        Failure,
    >)
        ensures
            text_outcome(text) == text_of(*self, *object_text),
    {
        match self {
            Value::Bool(flag) => Ok(
                Some(
                    if *flag {
                        "true".to_owned()
                    } else {
                        "false".to_owned()
                    },
                ),
            ),
            Value::Int(number) => Ok(Some(decimal_text(*number))),
            Value::String(text) => Ok(Some(text.clone())),
            Value::Other(other) => match copy_text(&other.text) {
                Ok(text) => Ok(Some(text)),
                Err(failure) => Err(failure),
            },
            Value::Object(_) => match copy_text(object_text) {
                Ok(text) => Ok(Some(text)),
                Err(failure) => Err(failure),
            },
            _ => Ok(None),
        }
    }

    /// The value as an optional integer.
    pub fn to_int(&self) -> (number: Result<Option<i32>, Failure>)
        ensures
            number == int_of(*self),
    {
        match self {
            Value::Uninitialized | Value::Undefined | Value::Null => Ok(None),
            Value::Int(number) => Ok(Some(*number)),
            Value::Other(other) if other.integer.is_some() => Ok(other.integer),
            _ => Err(Failure::FromJs { from: self.type_of(), to: Type::Int }),
        }
    }

    /// The value as an optional flag.
    pub fn to_bool(&self) -> (flag: Result<Option<bool>, Failure>)
        ensures
            flag == bool_of(*self),
    {
        match self {
            Value::Uninitialized | Value::Undefined | Value::Null => Ok(None),
            Value::Bool(flag) => Ok(Some(*flag)),
            _ => Err(Failure::FromJs { from: self.type_of(), to: Type::Bool }),
        }
    }

    /// The value as an object.
    pub fn to_object(&self) -> (object: Result<Object, Failure>)
        ensures
            object == object_of(*self),
    {
        match self {
            Value::Object(object) => Ok(object.clone()),
            _ => Err(Failure::FromJs { from: self.type_of(), to: Type::Object }),
        }
    }

    /// The value as an optional object.
    pub fn to_optional_object(&self) -> (object: Result<Option<Object>, Failure>)
        ensures
            object == optional_object_of(*self),
    {
        match self {
            Value::Uninitialized | Value::Undefined | Value::Null => Ok(None),
            _ => match self.to_object() {
                Ok(object) => Ok(Some(object)),
                Err(failure) => Err(failure),
            },
        }
    }
}

} // verus!
