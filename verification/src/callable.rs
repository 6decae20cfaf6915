use vstd::prelude::*;
use std::rc::Rc;
use crate::ast::{FunDeclModel, FunDeclStatement};

verus! {

/// `Rc::clone` gives another handle to the same declaration.
#[verifier::external_body]
pub(crate) fn share(declaration: &Rc<FunDeclStatement>) -> (copy: Rc<FunDeclStatement>)
    ensures
        copy == *declaration,
{
    Rc::clone(declaration)
}

/// A function value: its declaration, the environment that it was declared
/// in, and whether it is the `init` method of a class.
#[derive(Debug)]
pub struct Function {
    pub declaration: Rc<FunDeclStatement>,
    pub closure: usize,
    pub is_initializer: bool,
}

/// What a `Function` stands for.
pub struct FunctionModel {
    pub declaration: FunDeclModel,
    pub closure: usize,
    pub is_initializer: bool,
}

impl View for Function {
    type V = FunctionModel;

    open spec fn view(&self) -> FunctionModel {
        FunctionModel {
            declaration: (*self.declaration)@,
            closure: self.closure,
            is_initializer: self.is_initializer,
        }
    }
}

impl Clone for Function {
    fn clone(&self) -> (copy: Self)
        ensures
            copy == *self,
    {
        Function {
            declaration: share(&self.declaration),
            closure: self.closure,
            is_initializer: self.is_initializer,
        }
    }
}

impl Function {
    pub fn new(declaration: Rc<FunDeclStatement>, closure: usize, is_initializer: bool) -> (function:
        Function)
        ensures
            function == (Function { declaration, closure, is_initializer }),
    {
        Function { declaration, closure, is_initializer }
    }

    /// The number of parameters.
    pub fn arity(&self) -> (n: usize)
        ensures
            n == self@.declaration.parameters.len(),
    {
        self.declaration.parameters.len()
    }
}

/// Something that can be called and is no class: a function of the program
/// or the built-in `clock`.
#[derive(Debug)]
pub enum Callable {
    Function(Function),
    Clock,
}

} // verus!
