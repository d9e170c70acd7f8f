//! The variables of one run.

use crate::table::Table;
use vstd::prelude::*;

verus! {

/// A number, as a JSON document can hold it.
#[derive(Clone, Debug, PartialEq, Eq)]
pub enum Number {
    /// A whole number that is not negative.
    PosInt(u64),
    /// A whole number that is negative.
    NegInt(i64),
    /// Any other number, as JSON writes it, such as `0.5` or `1e21`.
    Float(String),
}

/// What a variable can be bound to: the values of a JSON document.
#[derive(Debug, PartialEq, Eq)]
pub enum Json {
    Null,
    Bool(bool),
    Number(Number),
    Text(String),
    List(Vec<Json>),
    /// The fields of an object, in their order.
    Object(Vec<(String, Json)>),
}

impl Json {
    /// The text of a value that is a text.
    pub fn as_str(&self) -> (text: Option<&str>)
        ensures
            match text {
                Some(t) => *self matches Json::Text(s) && t@ == s@,
                None => !(*self is Text),
            },
    {
        match self {
            Json::Text(s) => Some(s.as_str()),
            _ => None,
        }
    }

    /// Whether the value is a text.
    pub fn is_string(&self) -> (yes: bool)
        ensures
            yes == (*self is Text),
    {
        match self {
            Json::Text(_) => true,
            _ => false,
        }
    }
}

/// The variables of one run, each name bound to one value, in the order in
/// which the names were first bound.
pub struct Context {
    variables: Table<Json>,
}

impl Context {
    /// The bindings as a map from names to values.
    pub closed spec fn view(&self) -> Map<Seq<char>, Json> {
        self.variables@
    }

    /// The names in the order in which they were first bound.
    pub closed spec fn names(&self) -> Seq<Seq<char>> {
        self.variables.names()
    }

    /// A context without variables.
    pub fn new() -> (context: Self)
        ensures
            context@ == Map::<Seq<char>, Json>::empty(),
            context.names().len() == 0,
    {
        Context { variables: Table::new() }
    }

    /// Binds `name` to `value`, in place of what it was bound to.
    pub fn insert(&mut self, name: String, value: Json)
        ensures
            final(self)@ == old(self)@.insert(name@, value),
            old(self)@.contains_key(name@) ==> final(self).names() == old(self).names(),
            !old(self)@.contains_key(name@) ==> final(self).names() == old(self).names().push(
                name@,
            ),
    {
        self.variables.insert(name, value);
    }

    /// What `name` is bound to, if it is bound.
    pub fn get(&self, name: &str) -> (found: Option<&Json>)
        ensures
            match found {
                Some(value) => self@.contains_key(name@) && *value == self@[name@],
                None => !self@.contains_key(name@),
            },
    {
        self.variables.get(name)
    }

    /// Whether `name` is bound.
    pub fn contains_key(&self, name: &str) -> (found: bool)
        ensures
            found == self@.contains_key(name@),
    {
        self.variables.contains_key(name)
    }

    /// The number of variables.
    pub fn len(&self) -> (n: usize)
        ensures
            n == self.names().len(),
    {
        self.variables.len()
    }
}

} // verus!
