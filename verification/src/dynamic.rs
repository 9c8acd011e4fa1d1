//! Script values.
//!
//! [`Dynamic`] is the value type that scripts compute with. Values that are
//! shared between several holders (a borrowed host binding seen by a script
//! closure, for instance) live in a cell of the runtime's shared store and are
//! referred to by [`Dynamic::Shared`] handles.

use vstd::prelude::*;

verus! {

/// A dynamically-typed script value.
#[derive(Debug, PartialEq)]
pub enum Dynamic {
    /// The unit value `()`.
    Unit,
    /// A boolean.
    Bool(bool),
    /// A character.
    Char(char),
    /// An integer.
    Int(i64),
    /// A string.
    Str(String),
    /// A handle to a cell of the shared store (the cell's index).
    Shared(usize),
    /// The placeholder left behind in a borrowed binding's cell once the call
    /// that lent it has returned; it carries the binding's name.
    ExpiredBinding(String),
}

impl Dynamic {
    /// A copy of this value that is equal to it.
    pub fn duplicate(&self) -> (r: Dynamic)
        ensures
            r == *self,
    {
        match self {
            Dynamic::Unit => Dynamic::Unit,
            Dynamic::Bool(b) => Dynamic::Bool(*b),
            Dynamic::Char(c) => Dynamic::Char(*c),
            Dynamic::Int(i) => Dynamic::Int(*i),
            Dynamic::Str(s) => Dynamic::Str(s.clone()),
            Dynamic::Shared(id) => Dynamic::Shared(*id),
            Dynamic::ExpiredBinding(n) => Dynamic::ExpiredBinding(n.clone()),
        }
    }

    /// Move the value out, leaving `()` in its place.
    pub fn take(&mut self) -> (r: Dynamic)
        ensures
            r == *old(self),
            *final(self) == Dynamic::Unit,
    {
        let mut r = Dynamic::Unit;
        std::mem::swap(self, &mut r);
        r
    }

    /// Is this a handle to a shared cell?
    pub fn is_shared(&self) -> (r: bool)
        ensures
            r == (*self is Shared),
    {
        match self {
            Dynamic::Shared(_) => true,
            _ => false,
        }
    }

    /// Is this the unit value?
    pub fn is_unit(&self) -> (r: bool)
        ensures
            r == (*self is Unit),
    {
        match self {
            Dynamic::Unit => true,
            _ => false,
        }
    }

    /// The integer held, if this is an integer.
    pub fn as_int(&self) -> (r: Option<i64>)
        ensures
            r == (match *self {
                Dynamic::Int(i) => Some(i),
                _ => None,
            }),
    {
        match self {
            Dynamic::Int(i) => Some(*i),
            _ => None,
        }
    }

    /// The boolean held, if this is a boolean.
    pub fn as_bool(&self) -> (r: Option<bool>)
        ensures
            r == (match *self {
                Dynamic::Bool(b) => Some(b),
                _ => None,
            }),
    {
        match self {
            Dynamic::Bool(b) => Some(*b),
            _ => None,
        }
    }

    /// The string held, if this is a string.
    pub fn as_str(&self) -> (r: Option<&str>)
        ensures
            r.is_some() == (*self is Str),
            r.is_some() ==> r.unwrap()@ == (*self)->Str_0@,
    {
        match self {
            Dynamic::Str(s) => Some(s.as_str()),
            _ => None,
        }
    }

    /// The placeholder for a borrowed binding whose lending call has returned.
    pub fn make_expired_borrowed_binding(name: String) -> (r: Dynamic)
        ensures
            r == Dynamic::ExpiredBinding(name),
    {
        Dynamic::ExpiredBinding(name)
    }
}

/// A type whose values convert into script values.
pub trait Variant {
    /// The script value that `self` converts into.
    spec fn dynamic_of(&self) -> Dynamic;

    /// Convert into a script value.
    fn to_dynamic(&self) -> (d: Dynamic)
        ensures
            d == self.dynamic_of(),
    ;
}

/// Converting a Rust value into a script value keeps the value: an integer
/// becomes the same integer, a flag the same flag, a character the same
/// character, a string the same string, `()` the unit value, and a script
/// value stays as it is.
pub proof fn lemma_variant_keeps_value(n: i64, b: bool, c: char, s: String, d: Dynamic)
    ensures
        n.dynamic_of() == Dynamic::Int(n),
        b.dynamic_of() == Dynamic::Bool(b),
        c.dynamic_of() == Dynamic::Char(c),
        s.dynamic_of() == Dynamic::Str(s),
        ().dynamic_of() == Dynamic::Unit,
        d.dynamic_of() == d,
{
}

impl Variant for Dynamic {
    open spec fn dynamic_of(&self) -> Dynamic {
        *self
    }

    fn to_dynamic(&self) -> (d: Dynamic) {
        self.duplicate()
    }
}

impl Variant for () {
    open spec fn dynamic_of(&self) -> Dynamic {
        Dynamic::Unit
    }

    fn to_dynamic(&self) -> (d: Dynamic) {
        Dynamic::Unit
    }
}

impl Variant for bool {
    open spec fn dynamic_of(&self) -> Dynamic {
        Dynamic::Bool(*self)
    }

    fn to_dynamic(&self) -> (d: Dynamic) {
        Dynamic::Bool(*self)
    }
}

impl Variant for char {
    open spec fn dynamic_of(&self) -> Dynamic {
        Dynamic::Char(*self)
    }

    fn to_dynamic(&self) -> (d: Dynamic) {
        Dynamic::Char(*self)
    }
}

impl Variant for i64 {
    open spec fn dynamic_of(&self) -> Dynamic {
        Dynamic::Int(*self)
    }

    fn to_dynamic(&self) -> (d: Dynamic) {
        Dynamic::Int(*self)
    }
}

impl Variant for String {
    open spec fn dynamic_of(&self) -> Dynamic {
        Dynamic::Str(*self)
    }

    fn to_dynamic(&self) -> (d: Dynamic) {
        Dynamic::Str(self.clone())
    }
}

} // verus!
