//! Reading and writing the properties of an object.
use crate::convert;
use crate::value::{
    copy_properties, copy_reading, copy_readings, Body, Class, Failure, Object, Property, Trace,
    Value, Write,
};
use std::rc::Rc;
use vstd::prelude::*;

verus! {

/// The index of the first property of that name, or the number of properties where
/// there is none.
pub open spec fn position(properties: Seq<Property>, name: Seq<char>) -> nat
    decreases properties.len(),
{
    if properties.len() == 0 || properties[0].name@ == name {
        0
    } else {
        1 + position(properties.drop_first(), name)
    }
}

/// The first property of that name.
pub open spec fn lookup(properties: Seq<Property>, name: Seq<char>) -> Option<Property> {
    if position(properties, name) < properties.len() {
        Some(properties[position(properties, name) as int])
    } else {
        None
    }
}

/// What reading a property of that name gives. A property that is not there reads as
/// undefined.
pub open spec fn value_at(object: Object, name: Seq<char>) -> Result<Value, Failure> {
    match lookup(object.body.properties@, name) {
        None => Ok(Value::Undefined),
        Some(property) => property.read,
    }
}

/// What reading a property as an optional text gives.
pub open spec fn text_at(object: Object, name: Seq<char>) -> Result<Option<Seq<char>>, Failure> {
    match lookup(object.body.properties@, name) {
        None => Ok(None),
        Some(property) => match property.read {
            Err(failure) => Err(failure),
            Ok(value) => convert::text_of(value, property.text),
        },
    }
}

/// What reading a property as an optional integer gives.
pub open spec fn int_at(object: Object, name: Seq<char>) -> Result<Option<i32>, Failure> {
    match value_at(object, name) {
        Err(failure) => Err(failure),
        Ok(value) => convert::int_of(value),
    }
}

/// What reading a property as an optional flag gives.
pub open spec fn bool_at(object: Object, name: Seq<char>) -> Result<Option<bool>, Failure> {
    match value_at(object, name) {
        Err(failure) => Err(failure),
        Ok(value) => convert::bool_of(value),
    }
}

/// What reading a property as an optional object gives.
pub open spec fn object_at(object: Object, name: Seq<char>) -> Result<Option<Object>, Failure> {
    match value_at(object, name) {
        Err(failure) => Err(failure),
        Ok(value) => convert::optional_object_of(value),
    }
}

/// Finds the first property of that name.
pub(crate) fn find_property(properties: &Vec<Property>, name: &str) -> (index: usize)
    ensures
        index == position(properties@, name@),
        index <= properties.len(),
{
    let wanted: String = name.to_owned();
    let mut i: usize = 0;
    assert(properties@.skip(0) =~= properties@);
    while i < properties.len()
        invariant
            i <= properties.len(),
            wanted@ == name@,
            position(properties@, name@) == i + position(properties@.skip(i as int), name@),
        decreases properties.len() - i,
    {
        assert(properties@.skip(i as int)[0] == properties[i as int]);
        if properties[i].name == wanted {
            return i;
        }
        assert(properties@.skip(i as int).drop_first() =~= properties@.skip(i + 1));
        i = i + 1;
    }
    i
}

impl Object {
    /// Whether the object is an error.
    pub open spec fn spec_is_error(&self) -> bool {
        self.body.class is Error
    }

    /// Whether the object is an error.
    #[verifier::when_used_as_spec(spec_is_error)]
    pub fn is_error(&self) -> (error: bool)
        ensures
            error == self.spec_is_error(),
    {
        match self.body.class {
            Class::Error(_) => true,
            _ => false,
        }
    }

    fn find(&self, name: &str) -> (property: Option<&Property>)
        ensures
            match property {
                Some(property) => lookup(self.body.properties@, name@) == Some(*property),
                None => lookup(self.body.properties@, name@) is None,
            },
    {
        let i: usize = find_property(&self.body.properties, name);
        if i < self.body.properties.len() {
            Some(&self.body.properties[i])
        } else {
            None
        }
    }

    /// Reads a property.
    pub fn get(&self, name: &str) -> (value: Result<Value, Failure>)
        ensures
            value == value_at(*self, name@),
    {
        match self.find(name) {
            None => Ok(Value::Undefined),
            Some(property) => copy_reading(&property.read),
        }
    }

    /// Reads a property as an optional text.
    pub fn get_text(&self, name: &str) -> (text: Result<Option<String>, Failure>)
        ensures
            convert::text_outcome(text) == text_at(*self, name@),
    {
        match self.find(name) {
            None => Ok(None),
            Some(property) => match &property.read {
                Err(failure) => Err(failure.clone()),
                Ok(value) => value.to_text(&property.text),
            },
        }
    }

    /// Reads a property as an optional integer.
    pub fn get_int(&self, name: &str) -> (number: Result<Option<i32>, Failure>)
        ensures
            number == int_at(*self, name@),
    {
        self.get(name)?.to_int()
    }

    /// Reads a property as an optional flag.
    pub fn get_bool(&self, name: &str) -> (flag: Result<Option<bool>, Failure>)
        ensures
            flag == bool_at(*self, name@),
    {
        self.get(name)?.to_bool()
    }

    /// Reads a property as an optional object.
    pub fn get_object(&self, name: &str) -> (object: Result<Option<Object>, Failure>)
        ensures
            object == object_at(*self, name@),
    {
        self.get(name)?.to_optional_object()
    }

    /// Writes a text to a property. What that does is up to the property; one that is not
    /// there is added. Gives the object as it is afterwards.
    pub fn set_text(&self, name: &str, text: &str) -> (object: Result<Object, Failure>)
        ensures
            match object {
                Ok(object) => {
                    &&& !(write_in(self.body.properties@, name@) is Fail)
                    &&& object.id == self.id
                    &&& object.body.class == self.body.class
                    &&& is_text_written(
                        self.body.properties@,
                        self.body.items@,
                        self.body.trace,
                        *object.body,
                        name@,
                        text@,
                    )
                },
                Err(failure) => write_in(self.body.properties@, name@) == Write::Fail(failure),
            },
    {
        let (write, listed): (Write, bool) = match self.find(name) {
            Some(property) => (property.write.clone(), property.listed),
            None => (Write::Add, true),
        };
        let properties: Vec<Property> = match write {
            Write::Fail(failure) => {
                return Err(failure);
            },
            Write::Ignore => {
                return Ok(self.clone());
            },
            Write::Run(aftermath) => {
                let body: Body = Body {
                    class: self.body.class,
                    properties: copy_properties(&aftermath.properties),
                    items: copy_readings(&aftermath.items),
                    trace: aftermath.trace.clone(),
                };
                return Ok(Object { id: self.id, body: Rc::new(body) });
            },
            Write::Replace => put_text(&self.body.properties, name, text, listed),
            Write::Add => add_text(&self.body.properties, name, text),
        };
        let body: Body = Body {
            class: self.body.class,
            properties,
            items: copy_readings(&self.body.items),
            trace: self.body.trace.clone(),
        };
        Ok(Object { id: self.id, body: Rc::new(body) })
    }
}

/// A plain property that holds a text.
pub open spec fn is_text(
    property: Property,
    name: Seq<char>,
    text: Seq<char>,
    listed: bool,
) -> bool {
    &&& property.name@ == name
    &&& property.read matches Ok(Value::String(held)) && held@ == text
    &&& property.text matches Ok(converted) && converted@ == text
    &&& property.write is Replace
    &&& property.listed == listed
}

/// `after` is `before` with a text put at a name: in place of the first property of that
/// name, or behind all others.
pub open spec fn is_text_put(
    before: Seq<Property>,
    after: Seq<Property>,
    name: Seq<char>,
    text: Seq<char>,
    listed: bool,
) -> bool {
    let i = position(before, name) as int;
    &&& after.len() == if i < before.len() {
        before.len()
    } else {
        before.len() + 1
    }
    &&& forall|j: int| 0 <= j < before.len() && j != i ==> #[trigger] after[j] == before[j]
    &&& is_text(after[i], name, text, listed)
}

/// The properties without those of that name.
pub open spec fn without(properties: Seq<Property>, name: Seq<char>) -> Seq<Property>
    decreases properties.len(),
{
    if properties.len() == 0 {
        Seq::empty()
    } else if properties[0].name@ == name {
        without(properties.drop_first(), name)
    } else {
        seq![properties[0]] + without(properties.drop_first(), name)
    }
}

/// `after` is `before` with a listed property that holds a text, behind all others and in
/// place of any of that name.
pub open spec fn is_text_added(
    before: Seq<Property>,
    after: Seq<Property>,
    name: Seq<char>,
    text: Seq<char>,
) -> bool {
    &&& after.len() == without(before, name).len() + 1
    &&& after.drop_last() == without(before, name)
    &&& is_text(after.last(), name, text, true)
}

/// What writing a property of that name does. One that is not there is added.
pub open spec fn write_in(properties: Seq<Property>, name: Seq<char>) -> Write {
    match lookup(properties, name) {
        Some(property) => property.write,
        None => Write::Add,
    }
}

/// `after` is what an object of these properties, elements and captured frames holds after
/// a text was written to a property of it that takes writes.
pub open spec fn is_text_written(
    properties: Seq<Property>,
    items: Seq<Result<Value, Failure>>,
    trace: Trace,
    after: Body,
    name: Seq<char>,
    text: Seq<char>,
) -> bool {
    match write_in(properties, name) {
        Write::Run(aftermath) => {
            &&& after.properties@ == aftermath.properties@
            &&& after.items@ == aftermath.items@
            &&& after.trace == aftermath.trace
        },
        write => {
            &&& after.items@ == items
            &&& after.trace == trace
            &&& match write {
                Write::Replace => is_text_put(
                    properties,
                    after.properties@,
                    name,
                    text,
                    properties[position(properties, name) as int].listed,
                ),
                Write::Add => is_text_added(properties, after.properties@, name, text),
                _ => after.properties@ == properties,
            }
        },
    }
}

/// A plain property that holds a text.
fn text_property(name: &str, text: &str, listed: bool) -> (property: Property)
    ensures
        is_text(property, name@, text@, listed),
{
    Property {
        name: name.to_owned(),
        read: Ok(Value::String(text.to_owned())),
        text: Ok(text.to_owned()),
        write: Write::Replace,
        listed,
    }
}

/// Adds a listed property that holds a text, in place of any of that name.
fn add_text(properties: &Vec<Property>, name: &str, text: &str) -> (after: Vec<Property>)
    ensures
        is_text_added(properties@, after@, name@, text@),
{
    let hidden: String = name.to_owned();
    let mut after: Vec<Property> = Vec::new();
    let mut i: usize = 0;
    assert(properties@.skip(0) =~= properties@);
    assert(after@ + without(properties@, name@) =~= without(properties@, name@));
    while i < properties.len()
        invariant
            i <= properties.len(),
            hidden@ == name@,
            without(properties@, name@) == after@ + without(properties@.skip(i as int), name@),
        decreases properties.len() - i,
    {
        let ghost rest = properties@.skip(i as int);
        let ghost before = after@;
        assert(rest[0] == properties[i as int]);
        assert(rest.drop_first() =~= properties@.skip(i + 1));
        if properties[i].name != hidden {
            after.push(properties[i].clone());
            assert(after@ + without(rest.drop_first(), name@) =~= before + without(rest, name@));
        }
        i = i + 1;
    }
    assert(after@ + without(properties@.skip(i as int), name@) =~= after@);
    let ghost kept = after@;
    after.push(text_property(name, text, true));
    assert(after@.drop_last() =~= kept);
    after
}

/// Puts a text at a name.
pub(crate) fn put_text(
    properties: &Vec<Property>,
    name: &str,
    text: &str,
    listed: bool,
) -> (after: Vec<Property>)
    ensures
        is_text_put(properties@, after@, name@, text@, listed),
{
    let property: Property = text_property(name, text, listed);
    let i: usize = find_property(properties, name);
    let mut after: Vec<Property> = copy_properties(properties);
    if i < after.len() {
        after[i] = property;
    } else {
        after.push(property);
    }
    after
}

proof fn lemma_position(properties: Seq<Property>, name: Seq<char>)
    ensures
        position(properties, name) <= properties.len(),
        forall|j: int|
            0 <= j < position(properties, name) ==> #[trigger] properties[j].name@ != name,
        position(properties, name) < properties.len() ==> properties[position(
            properties,
            name,
        ) as int].name@ == name,
    decreases properties.len(),
{
    if properties.len() > 0 && properties[0].name@ != name {
        let rest = properties.drop_first();
        lemma_position(rest, name);
        assert forall|j: int|
            0 <= j < position(properties, name) implies #[trigger] properties[j].name@
            != name by {
            if j > 0 {
                assert(rest[j - 1] == properties[j]);
            }
        }
    }
}

proof fn lemma_position_is(properties: Seq<Property>, name: Seq<char>, i: int)
    requires
        0 <= i <= properties.len(),
        forall|j: int| 0 <= j < i ==> #[trigger] properties[j].name@ != name,
        i < properties.len() ==> properties[i].name@ == name,
    ensures
        position(properties, name) == i,
{
    lemma_position(properties, name);
    let found = position(properties, name) as int;
    if found < i {
        assert(properties[found].name@ != name);
    }
}

/// A text that was put at a name is what the name then reads as, and no other name is
/// affected.
pub proof fn law_put_text_reads_back(
    before: Seq<Property>,
    after: Seq<Property>,
    name: Seq<char>,
    text: Seq<char>,
    listed: bool,
    other: Seq<char>,
)
    requires
        is_text_put(before, after, name, text, listed),
    ensures
        lookup(after, name) matches Some(property) && is_text(property, name, text, listed),
        other != name ==> lookup(after, other) == lookup(before, other),
{
    let i = position(before, name) as int;
    lemma_position(before, name);
    assert forall|j: int| 0 <= j < i implies #[trigger] after[j].name@ != name by {
        assert(after[j] == before[j]);
    }
    lemma_position_is(after, name, i);
    let k = position(before, other) as int;
    lemma_position(before, other);
    if other == name {
    } else if k < before.len() {
        assert(after[k] == before[k]);
        assert forall|j: int| 0 <= j < k implies #[trigger] after[j].name@ != other by {
            if j != i {
                assert(after[j] == before[j]);
            }
        }
        lemma_position_is(after, other, k);
    } else {
        assert forall|j: int| 0 <= j < after.len() implies #[trigger] after[j].name@ != other by {
            if j != i {
                assert(after[j] == before[j]);
            }
        }
        lemma_position_is(after, other, after.len() as int);
    }
}

proof fn lemma_without(properties: Seq<Property>, name: Seq<char>, other: Seq<char>)
    ensures
        forall|j: int|
            0 <= j < without(properties, name).len() ==> (#[trigger] without(
                properties,
                name,
            )[j]).name@ != name,
        other != name ==> lookup(without(properties, name), other) == lookup(properties, other),
    decreases properties.len(),
{
    if properties.len() > 0 {
        let rest = properties.drop_first();
        let kept = without(rest, name);
        lemma_without(rest, name, other);
        lemma_position(rest, other);
        lemma_position(kept, other);
        if properties[0].name@ != name {
            let all = without(properties, name);
            assert(all.drop_first() =~= kept);
            assert forall|j: int| 0 <= j < all.len() implies (#[trigger] all[j]).name@
                != name by {
                if j > 0 {
                    assert(all[j] == kept[j - 1]);
                }
            }
        }
    }
}

/// A text that was added under a name is what the name then reads as, and no other name is
/// affected.
pub proof fn law_added_text_reads_back(
    before: Seq<Property>,
    after: Seq<Property>,
    name: Seq<char>,
    text: Seq<char>,
    other: Seq<char>,
)
    requires
        is_text_added(before, after, name, text),
    ensures
        lookup(after, name) matches Some(property) && is_text(property, name, text, true),
        other != name ==> lookup(after, other) == lookup(before, other),
{
    let kept = without(before, name);
    let last = after.len() - 1;
    lemma_without(before, name, other);
    assert forall|j: int| 0 <= j < last implies (#[trigger] after[j]).name@ != name by {
        assert(after[j] == kept[j]);
    }
    lemma_position_is(after, name, last);
    if other != name {
        let k = position(kept, other) as int;
        lemma_position(kept, other);
        assert forall|j: int| 0 <= j < k implies (#[trigger] after[j]).name@ != other by {
            assert(after[j] == kept[j]);
        }
        if k < kept.len() {
            assert(after[k] == kept[k]);
            lemma_position_is(after, other, k);
        } else {
            lemma_position_is(after, other, after.len() as int);
        }
    }
}

/// No two properties have the same name, as is so of the properties of any object of a
/// script.
pub open spec fn names_are_distinct(properties: Seq<Property>) -> bool {
    forall|i: int, j: int|
        0 <= i < j < properties.len() ==> #[trigger] properties[i].name@
            != #[trigger] properties[j].name@
}

/// What a name finds has that name.
pub proof fn law_found_property_has_the_name(properties: Seq<Property>, name: Seq<char>)
    ensures
        lookup(properties, name) matches Some(property) ==> property.name@ == name,
{
    lemma_position(properties, name);
}

/// Where names are distinct, each property is what its name finds.
pub proof fn law_distinct_names_find_their_property(properties: Seq<Property>, i: int)
    requires
        names_are_distinct(properties),
        0 <= i < properties.len(),
    ensures
        lookup(properties, properties[i].name@) == Some(properties[i]),
{
    lemma_position_is(properties, properties[i].name@, i);
}

proof fn lemma_without_is_distinct(properties: Seq<Property>, name: Seq<char>)
    requires
        names_are_distinct(properties),
    ensures
        names_are_distinct(without(properties, name)),
        forall|j: int|
            #![trigger without(properties, name)[j]]
            0 <= j < without(properties, name).len() ==> exists|i: int|
                0 <= i < properties.len() && #[trigger] properties[i] == without(
                    properties,
                    name,
                )[j],
    decreases properties.len(),
{
    if properties.len() > 0 {
        let rest = properties.drop_first();
        let kept = without(rest, name);
        let all = without(properties, name);
        assert forall|i: int, j: int| 0 <= i < j < rest.len() implies #[trigger] rest[i].name@
            != #[trigger] rest[j].name@ by {
            assert(rest[i] == properties[i + 1] && rest[j] == properties[j + 1]);
        }
        lemma_without_is_distinct(rest, name);
        assert forall|j: int| 0 <= j < kept.len() implies exists|i: int|
            0 < i < properties.len() && #[trigger] properties[i] == #[trigger] kept[j] by {
            let i = choose|i: int| 0 <= i < rest.len() && #[trigger] rest[i] == kept[j];
            assert(properties[i + 1] == kept[j]);
        }
        if properties[0].name@ != name {
            assert forall|j: int| 0 < j < all.len() implies #[trigger] all[j] == kept[j - 1] by {}
            assert forall|i: int, j: int| 0 <= i < j < all.len() implies #[trigger] all[i].name@
                != #[trigger] all[j].name@ by {
                assert(all[j] == kept[j - 1]);
                if i > 0 {
                    assert(all[i] == kept[i - 1]);
                } else {
                    let k = choose|k: int|
                        0 < k < properties.len() && #[trigger] properties[k] == kept[j - 1];
                    assert(properties[0].name@ != properties[k].name@);
                }
            }
            assert forall|j: int| 0 <= j < all.len() implies exists|i: int|
                0 <= i < properties.len() && #[trigger] properties[i] == #[trigger] all[j] by {
                if j == 0 {
                    assert(properties[0] == all[0]);
                } else {
                    assert(all[j] == kept[j - 1]);
                }
            }
        }
    }
}

/// Putting a text at a name keeps names distinct.
pub proof fn law_put_names_stay_distinct(
    before: Seq<Property>,
    after: Seq<Property>,
    name: Seq<char>,
    text: Seq<char>,
    listed: bool,
)
    requires
        names_are_distinct(before),
        is_text_put(before, after, name, text, listed),
    ensures
        names_are_distinct(after),
{
    let at = position(before, name) as int;
    lemma_position(before, name);
    assert forall|i: int| 0 <= i < before.len() implies #[trigger] after[i].name@
        == before[i].name@ by {
        if i != at {
            assert(after[i] == before[i]);
        }
    }
}

/// Writing a text to a property keeps names distinct.
pub proof fn law_written_names_stay_distinct(
    properties: Seq<Property>,
    items: Seq<Result<Value, Failure>>,
    trace: Trace,
    after: Body,
    name: Seq<char>,
    text: Seq<char>,
)
    requires
        names_are_distinct(properties),
        is_text_written(properties, items, trace, after, name, text),
        write_in(properties, name) matches Write::Run(aftermath) ==> names_are_distinct(
            aftermath.properties@,
        ),
    ensures
        names_are_distinct(after.properties@),
{
    let new = after.properties@;
    match write_in(properties, name) {
        Write::Replace => {
            let listed = properties[position(properties, name) as int].listed;
            law_put_names_stay_distinct(properties, new, name, text, listed);
        },
        Write::Add => {
            let kept = without(properties, name);
            lemma_without(properties, name, name);
            lemma_without_is_distinct(properties, name);
            assert forall|i: int| 0 <= i < kept.len() implies #[trigger] new[i] == kept[i] by {
                assert(new.drop_last()[i] == new[i]);
            }
        },
        _ => {},
    }
}

/// The first property of a name is what the name finds.
pub proof fn law_first_of_a_name_is_found(properties: Seq<Property>, name: Seq<char>, i: int)
    requires
        0 <= i < properties.len(),
        properties[i].name@ == name,
        forall|j: int| 0 <= j < i ==> (#[trigger] properties[j]).name@ != name,
    ensures
        lookup(properties, name) == Some(properties[i]),
{
    lemma_position_is(properties, name, i);
}

/// A name that no property has finds nothing.
pub proof fn law_missing_name_finds_nothing(properties: Seq<Property>, name: Seq<char>)
    requires
        forall|j: int| 0 <= j < properties.len() ==> (#[trigger] properties[j]).name@ != name,
    ensures
        lookup(properties, name) is None,
{
    lemma_position_is(properties, name, properties.len() as int);
}

/// What a name finds is the first property of the name, and nothing only where there is
/// none.
pub proof fn law_found_is_first_of_its_name(properties: Seq<Property>, name: Seq<char>)
    ensures
        match lookup(properties, name) {
            Some(property) => exists|i: int|
                0 <= i < properties.len() && #[trigger] properties[i] == property
                    && properties[i].name@ == name && forall|j: int|
                    0 <= j < i ==> (#[trigger] properties[j]).name@ != name,
            None => forall|j: int|
                0 <= j < properties.len() ==> (#[trigger] properties[j]).name@ != name,
        },
{
    lemma_position(properties, name);
    if let Some(property) = lookup(properties, name) {
        let i = position(properties, name) as int;
        assert(properties[i] == property);
    }
}

} // verus!
