//! Named values, as written out to markup: fields and attributes.

use vstd::prelude::*;

verus! {

/// A name-value pair of an element.
pub struct Attr(pub String, pub String);

impl Attr {
    /// The attribute `name="value"`.
    pub fn new(name: &str, value: &str) -> (r: Attr)
        ensures
            r.0@ == name@,
            r.1@ == value@,
    {
        Attr(name.to_string(), value.to_string())
    }

    /// The attribute named like `field`, with its value.
    pub fn from_field(field: Field<String>) -> (r: Attr)
        ensures
            r.0@ == field.name@,
            r.1@ == field.value@,
    {
        Attr(field.name.to_string(), field.value)
    }
}

/// A value together with the name it is written under.
pub struct Field<T> {
    pub name: &'static str,
    pub value: T,
}

impl<T> Field<T> {
    /// The field `name` holding `value`.
    pub fn new(name: &'static str, value: T) -> (r: Field<T>)
        ensures
            r.name == name,
            r.value == value,
    {
        Field { name, value }
    }

    /// The value.
    pub fn unwrap(self) -> (r: T)
        ensures
            r == self.value,
    {
        self.value
    }
}

impl<'a, T> Field<&'a Option<T>> {
    /// The field with its value taken out of the option; none when the
    /// option is empty.
    pub fn transpose(self) -> (r: Option<Field<&'a T>>)
        ensures
            match *self.value {
                Some(v) => r matches Some(f) && f.name == self.name && *f.value == v,
                None => r is None,
            },
    {
        match self.value {
            Some(v) => Some(Field { name: self.name, value: v }),
            None => None,
        }
    }
}

} // verus!
