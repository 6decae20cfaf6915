use vstd::prelude::*;
use crate::table::Table;
use crate::value::{Value, ValueModel};

verus! {

/// The models of the values of a map.
pub open spec fn deep_values(m: Map<Seq<char>, Value>) -> Map<Seq<char>, ValueModel> {
    Map::new(|key: Seq<char>| m.contains_key(key), |key: Seq<char>| m[key]@)
}

pub proof fn lemma_deep_values_insert(m: Map<Seq<char>, Value>, name: Seq<char>, value: Value)
    ensures
        deep_values(m.insert(name, value)) == deep_values(m).insert(name, value@),
{
    assert(deep_values(m.insert(name, value)) =~= deep_values(m).insert(name, value@));
}

pub proof fn lemma_deep_values_empty()
    ensures
        deep_values(Map::<Seq<char>, Value>::empty()) == Map::<Seq<char>, ValueModel>::empty(),
{
    assert(deep_values(Map::<Seq<char>, Value>::empty()) =~= Map::<Seq<char>, ValueModel>::empty());
}

/// One scope: the values of the names declared in it, and the handle of the
/// scope around it.
pub struct Environment {
    pub values: Table<Value>,
    pub parent: Option<usize>,
}

/// What an `Environment` stands for.
pub struct EnvModel {
    pub values: Map<Seq<char>, ValueModel>,
    pub parent: Option<usize>,
}

impl View for Environment {
    type V = EnvModel;

    open spec fn view(&self) -> EnvModel {
        EnvModel { values: deep_values(self.values@), parent: self.parent }
    }
}

impl EnvModel {
    /// The scope after a name was given a value in it.
    pub open spec fn define(self, name: Seq<char>, value: ValueModel) -> EnvModel {
        EnvModel { values: self.values.insert(name, value), parent: self.parent }
    }
}

impl Environment {
    /// An empty scope with no scope around it.
    pub fn new() -> (environment: Environment)
        ensures
            environment@ == (EnvModel { values: Map::empty(), parent: None }),
    {
        proof {
            lemma_deep_values_empty();
        }
        Environment { values: Table::new(), parent: None }
    }

    /// An empty scope inside another.
    pub fn inside(parent: usize) -> (environment: Environment)
        ensures
            environment@ == (EnvModel { values: Map::empty(), parent: Some(parent) }),
    {
        proof {
            lemma_deep_values_empty();
        }
        Environment { values: Table::new(), parent: Some(parent) }
    }

    /// Gives a name a value in this scope, whether or not it had one.
    pub fn define(&mut self, name: &String, value: Value)
        ensures
            final(self)@ == old(self)@.define(name@, value@),
    {
        proof {
            lemma_deep_values_insert(self.values@, name@, value);
        }
        self.values.insert(name.clone(), value);
    }

    /// The value of a name in this scope, if it has one here.
    pub fn get(&self, name: &String) -> (found: Option<Value>)
        ensures
            match found {
                Some(value) => self@.values.contains_key(name@) && value@ == self@.values[name@],
                None => !self@.values.contains_key(name@),
            },
    {
        match self.values.get(name) {
            Some(value) => Some(value.clone()),
            None => None,
        }
    }
}

} // verus!
