use vstd::prelude::*;
use crate::callable::{Function, FunctionModel};
use crate::environment::{deep_values, lemma_deep_values_empty, lemma_deep_values_insert};
use crate::table::Table;
use crate::value::{Value, ValueModel};

verus! {

/// The models of the functions of a map.
pub open spec fn deep_functions(m: Map<Seq<char>, Function>) -> Map<Seq<char>, FunctionModel> {
    Map::new(|key: Seq<char>| m.contains_key(key), |key: Seq<char>| m[key]@)
}

pub proof fn lemma_deep_functions_insert(m: Map<Seq<char>, Function>, name: Seq<char>, f: Function)
    ensures
        deep_functions(m.insert(name, f)) == deep_functions(m).insert(name, f@),
{
    assert(deep_functions(m.insert(name, f)) =~= deep_functions(m).insert(name, f@));
}

pub proof fn lemma_deep_functions_empty()
    ensures
        deep_functions(Map::<Seq<char>, Function>::empty()) == Map::<Seq<char>, FunctionModel>::empty(),
{
    assert(deep_functions(Map::<Seq<char>, Function>::empty()) =~= Map::<
        Seq<char>,
        FunctionModel,
    >::empty());
}

/// A class: its name, its own methods and the handle of its superclass.
pub struct LoxClass {
    pub name: String,
    pub methods: Table<Function>,
    pub superclass: Option<usize>,
}

/// What a `LoxClass` stands for.
pub struct ClassModel {
    pub name: Seq<char>,
    pub methods: Map<Seq<char>, FunctionModel>,
    pub superclass: Option<usize>,
}

impl View for LoxClass {
    type V = ClassModel;

    open spec fn view(&self) -> ClassModel {
        ClassModel {
            name: self.name@,
            methods: deep_functions(self.methods@),
            superclass: self.superclass,
        }
    }
}

impl LoxClass {
    pub fn new(name: String, methods: Table<Function>, superclass: Option<usize>) -> (class: LoxClass)
        ensures
            class@ == (ClassModel { name: name@, methods: deep_functions(methods@), superclass }),
    {
        LoxClass { name, methods, superclass }
    }

    /// The number of arguments that a call of the class takes: that of its
    /// own `init` method, or none.
    pub fn arity(&self) -> (n: usize)
        ensures
            n == self@.arity(),
    {
        let init = "init".to_owned();
        match self.methods.get(&init) {
            Some(f) => f.arity(),
            None => 0,
        }
    }
}

impl ClassModel {
    /// The number of arguments that a call of the class takes.
    pub open spec fn arity(self) -> nat {
        if self.methods.contains_key("init"@) {
            self.methods["init"@].declaration.parameters.len()
        } else {
            0
        }
    }
}

/// An instance: the handle of its class, and its fields.
pub struct LoxInstance {
    pub class: usize,
    pub fields: Table<Value>,
}

/// What a `LoxInstance` stands for.
pub struct InstanceModel {
    pub class: usize,
    pub fields: Map<Seq<char>, ValueModel>,
}

impl View for LoxInstance {
    type V = InstanceModel;

    open spec fn view(&self) -> InstanceModel {
        InstanceModel { class: self.class, fields: deep_values(self.fields@) }
    }
}

impl InstanceModel {
    /// The instance after a field was written.
    pub open spec fn set(self, name: Seq<char>, value: ValueModel) -> InstanceModel {
        InstanceModel { class: self.class, fields: self.fields.insert(name, value) }
    }
}

impl LoxInstance {
    /// An instance without fields.
    pub fn new(class: usize) -> (instance: LoxInstance)
        ensures
            instance@ == (InstanceModel { class, fields: Map::empty() }),
    {
        proof {
            lemma_deep_values_empty();
        }
        LoxInstance { class, fields: Table::new() }
    }

    /// The value of a field, if the instance has it.
    pub fn get(&self, name: &String) -> (found: Option<Value>)
        ensures
            match found {
                Some(value) => self@.fields.contains_key(name@) && value@ == self@.fields[name@],
                None => !self@.fields.contains_key(name@),
            },
    {
        match self.fields.get(name) {
            Some(value) => Some(value.clone()),
            None => None,
        }
    }

    /// Writes a field, which is made if the instance had none by that name.
    pub fn set(&mut self, name: &String, value: Value)
        ensures
            final(self)@ == old(self)@.set(name@, value@),
    {
        proof {
            lemma_deep_values_insert(self.fields@, name@, value);
        }
        self.fields.insert(name.clone(), value);
    }
}

} // verus!
