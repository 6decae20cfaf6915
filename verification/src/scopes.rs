use vstd::prelude::*;
use crate::ast::{ExprModel, FunDeclModel, StmtModel};
use crate::error::{LoxError, LoxErrorKind};
use crate::tokens::TokenModel;

verus! {

/// The kind of function whose body is being resolved.
#[derive(Debug, Clone, Copy, PartialEq, Eq, Structural)]
pub enum FunctionType {
    NoFunction,
    Function,
    Method,
    Initializer,
}

/// The kind of class whose body is being resolved.
#[derive(Debug, Clone, Copy, PartialEq, Eq, Structural)]
pub enum ClassType {
    NoClass,
    Class,
    Subclass,
}

pub open spec fn resolving_error(message: &'static str) -> LoxError {
    LoxError { message, kind: LoxErrorKind::ResolvingError }
}

/// The number of scopes between the innermost scope and the nearest scope
/// that declares the name, looking outwards from the `from`-th.
pub open spec fn innermost(scopes: Seq<Map<Seq<char>, bool>>, name: Seq<char>, from: nat) -> Option<nat>
    decreases scopes.len() - from,
{
    if from >= scopes.len() {
        None
    } else if scopes[scopes.len() - 1 - from].contains_key(name) {
        Some(from)
    } else {
        innermost(scopes, name, from + 1)
    }
}

/// The state of the resolver: the local scopes from the outermost to the
/// innermost, each with the names declared in it and whether their
/// initializer has been resolved; the errors met; the depths found; and
/// what kind of function and class the resolver is in.
pub struct Resolution {
    pub scopes: Seq<Map<Seq<char>, bool>>,
    pub errors: Seq<LoxError>,
    pub locals: Map<u32, usize>,
    pub function: FunctionType,
    pub class: ClassType,
}

impl Resolution {
    pub open spec fn begin_scope(self) -> Resolution {
        Resolution { scopes: self.scopes.push(Map::empty()), ..self }
    }

    pub open spec fn end_scope(self) -> Resolution {
        if self.scopes.len() == 0 {
            self
        } else {
            Resolution { scopes: self.scopes.drop_last(), ..self }
        }
    }

    pub open spec fn error(self, message: &'static str) -> Resolution {
        Resolution { errors: self.errors.push(resolving_error(message)), ..self }
    }

    pub open spec fn in_function(self, function: FunctionType) -> Resolution {
        Resolution { function, ..self }
    }

    pub open spec fn in_class(self, class: ClassType) -> Resolution {
        Resolution { class, ..self }
    }

    /// Puts a name into the innermost scope; outside every scope nothing is
    /// kept.
    pub open spec fn put(self, name: Seq<char>, ready: bool) -> Resolution {
        if self.scopes.len() == 0 {
            self
        } else {
            Resolution {
                scopes: self.scopes.update(
                    self.scopes.len() - 1,
                    self.scopes[self.scopes.len() - 1].insert(name, ready),
                ),
                ..self
            }
        }
    }

    /// Declares a name whose initializer is still to be resolved.  A name
    /// may be declared once in a local scope.
    pub open spec fn declare(self, name: Seq<char>) -> Resolution {
        if self.scopes.len() > 0 && self.scopes[self.scopes.len() - 1].contains_key(name) {
            self.error("Variable with this name already exists in this scope").put(name, false)
        } else {
            self.put(name, false)
        }
    }

    /// Marks a name as ready for use.
    pub open spec fn define(self, name: Seq<char>) -> Resolution {
        self.put(name, true)
    }

    /// Records for a token how many scopes lie between the innermost scope
    /// and the nearest one that declares its name.  A name that no local
    /// scope declares is taken for a global, and nothing is recorded.
    pub open spec fn resolve_local(self, token: TokenModel) -> Resolution {
        match innermost(self.scopes, token.lexeme, 0) {
            Some(depth) => Resolution { locals: self.locals.insert(token.id, depth as usize), ..self },
            None => self,
        }
    }

    /// A variable is read: not in its own initializer.
    pub open spec fn variable(self, token: TokenModel) -> Resolution {
        if self.scopes.len() > 0 && self.scopes[self.scopes.len() - 1].contains_key(token.lexeme)
            && !self.scopes[self.scopes.len() - 1][token.lexeme] {
            self.error("Can't read local variable in its own initializer").resolve_local(token)
        } else {
            self.resolve_local(token)
        }
    }

    /// `this` is read: inside a class only.
    pub open spec fn this(self, keyword: TokenModel) -> Resolution {
        if self.class == ClassType::NoClass {
            self.error("Can't use 'this' outside of a class")
        } else {
            self.resolve_local(keyword)
        }
    }

    /// `super` is read: inside a class that has a superclass only.
    pub open spec fn super_keyword(self, keyword: TokenModel) -> Resolution {
        match self.class {
            ClassType::NoClass => self.error("Can't use 'super' outside of a class"),
            ClassType::Class => self.error("Can't use 'super' in a class with no superclass"),
            ClassType::Subclass => self.resolve_local(keyword),
        }
    }

    /// A `return` is met: inside a function only, and with a value only
    /// outside an initializer.
    pub open spec fn returning(self, with_value: bool) -> Resolution {
        let first = if self.function == FunctionType::NoFunction {
            self.error("Can't have a return statement in top level code")
        } else {
            self
        };
        if with_value && self.function == FunctionType::Initializer {
            first.error("Can't return a value from an initializer")
        } else {
            first
        }
    }

    /// The head of a class declaration: the name is declared, and a
    /// superclass, which must be another class, is resolved as a variable
    /// and opens a scope that holds `super`; then comes the scope that holds
    /// `this`.
    pub open spec fn enter_class(self, name: TokenModel, superclass: Option<TokenModel>) -> Resolution {
        let named = self.in_class(ClassType::Class).declare(name.lexeme).define(name.lexeme);
        let above = match superclass {
            Some(token) => {
                let sub = named.in_class(ClassType::Subclass);
                let checked = if token.lexeme == name.lexeme {
                    sub.error("A class can't inherit from itself")
                } else {
                    sub
                };
                checked.variable(token).begin_scope().put("super"@, true)
            },
            None => named,
        };
        above.begin_scope().put("this"@, true)
    }

    /// The end of a class declaration, in a resolver that was in a class of
    /// kind `outer` before it.
    pub open spec fn leave_class(self, has_superclass: bool, outer: ClassType) -> Resolution {
        let closed = if has_superclass {
            self.end_scope().end_scope()
        } else {
            self.end_scope()
        };
        closed.in_class(outer)
    }
}

/// The kind of function that a method is: the one named `init` is the
/// initializer.
pub open spec fn method_kind(method: FunDeclModel) -> FunctionType {
    if method.name.lexeme == "init"@ {
        FunctionType::Initializer
    } else {
        FunctionType::Method
    }
}

/// The state after the first `n` parameters were declared and defined.
pub open spec fn declare_parameters(parameters: Seq<TokenModel>, n: nat, r: Resolution) -> Resolution
    decreases n,
{
    if n == 0 {
        r
    } else {
        declare_parameters(parameters, (n - 1) as nat, r).declare(parameters[n - 1].lexeme).define(
            parameters[n - 1].lexeme,
        )
    }
}

/// Resolves an expression.
pub open spec fn resolve_expr(e: ExprModel, r: Resolution) -> Resolution
    decreases e, 0nat,
{
    match e {
        ExprModel::Binary { left, right, .. } => resolve_expr(*right, resolve_expr(*left, r)),
        ExprModel::Unary { right, .. } => resolve_expr(*right, r),
        ExprModel::Literal { .. } => r,
        ExprModel::Grouping { expr } => resolve_expr(*expr, r),
        ExprModel::Variable { token } => r.variable(token),
        ExprModel::Assignment { token, value } => resolve_expr(*value, r).resolve_local(token),
        ExprModel::Logical { left, right, .. } => resolve_expr(*right, resolve_expr(*left, r)),
        ExprModel::Call { callee, arguments, .. } => resolve_exprs(arguments, 0, resolve_expr(*callee, r)),
        ExprModel::Get { object, .. } => resolve_expr(*object, r),
        ExprModel::SetProperty { object, value, .. } => resolve_expr(*object, resolve_expr(*value, r)),
        ExprModel::This { keyword } => r.this(keyword),
        ExprModel::Super { keyword, .. } => r.super_keyword(keyword),
    }
}

/// Resolves the expressions from the `i`-th on, in order.
pub open spec fn resolve_exprs(list: Seq<ExprModel>, i: nat, r: Resolution) -> Resolution
    decreases list, list.len() - i,
{
    if i >= list.len() {
        r
    } else {
        resolve_exprs(list, i + 1, resolve_expr(list[i as int], r))
    }
}

/// Resolves a statement.
pub open spec fn resolve_stmt(s: StmtModel, r: Resolution) -> Resolution
    decreases s, 0nat,
{
    match s {
        StmtModel::Expression { expression } => resolve_expr(expression, r),
        StmtModel::Print { value, .. } => resolve_expr(value, r),
        StmtModel::VarDecl { token, initializer } => match initializer {
            Some(e) => resolve_expr(e, r.declare(token.lexeme)).define(token.lexeme),
            None => r.declare(token.lexeme).define(token.lexeme),
        },
        StmtModel::Block { statements } => resolve_stmts(statements, 0, r.begin_scope()).end_scope(),
        StmtModel::If { condition, then_branch, else_branch } => {
            let first = resolve_stmt(*then_branch, resolve_expr(condition, r));
            match else_branch {
                Some(other) => resolve_stmt(*other, first),
                None => first,
            }
        },
        StmtModel::While { condition, body } => resolve_stmt(*body, resolve_expr(condition, r)),
        StmtModel::FunDecl { declaration } => resolve_function(
            declaration,
            FunctionType::Function,
            r.declare(declaration.name.lexeme).define(declaration.name.lexeme),
        ),
        StmtModel::Return { value, .. } => match value {
            Some(e) => resolve_expr(e, r.returning(true)),
            None => r.returning(false),
        },
        StmtModel::ClassDecl { name, methods, superclass } => resolve_methods(
            methods,
            0,
            r.enter_class(name, superclass),
        ).leave_class(superclass is Some, r.class),
    }
}

/// Resolves the statements from the `i`-th on, in order.
pub open spec fn resolve_stmts(list: Seq<StmtModel>, i: nat, r: Resolution) -> Resolution
    decreases list, list.len() - i,
{
    if i >= list.len() {
        r
    } else {
        resolve_stmts(list, i + 1, resolve_stmt(list[i as int], r))
    }
}

/// Resolves the body of a function, in a new scope that declares the
/// parameters.
pub open spec fn resolve_function(declaration: FunDeclModel, kind: FunctionType, r: Resolution) -> Resolution
    decreases declaration, 0nat,
{
    resolve_stmts(
        declaration.body,
        0,
        declare_parameters(
            declaration.parameters,
            declaration.parameters.len(),
            r.in_function(kind).begin_scope(),
        ),
    ).end_scope().in_function(r.function)
}

/// Resolves the methods from the `i`-th on, in order.
pub open spec fn resolve_methods(list: Seq<FunDeclModel>, i: nat, r: Resolution) -> Resolution
    decreases list, list.len() - i,
{
    if i >= list.len() {
        r
    } else {
        resolve_methods(list, i + 1, resolve_function(list[i as int], method_kind(list[i as int]), r))
    }
}

/// A function declaration of one parameter whose body returns that
/// parameter; `token` is the use of the parameter in the body.
pub open spec fn returns_its_parameter(declaration: FunDeclModel, token: TokenModel) -> bool {
    &&& declaration.parameters.len() == 1
    &&& declaration.body.len() == 1
    &&& declaration.body[0] matches StmtModel::Return { value: Some(ExprModel::Variable { token: used }), .. }
        && used == token
    &&& token.lexeme == declaration.parameters[0].lexeme
}

/// In a function that returns its parameter, the resolver finds the
/// parameter in the innermost scope: the depth that it records for the use
/// is 0.
pub proof fn parameter_resolves_to_the_scope_of_the_call(
    declaration: FunDeclModel,
    token: TokenModel,
    kind: FunctionType,
    r: Resolution,
)
    requires
        returns_its_parameter(declaration, token),
    ensures
        resolve_function(declaration, kind, r).locals.contains_key(token.id),
        resolve_function(declaration, kind, r).locals[token.id] == 0,
{
    let name = declaration.parameters[0].lexeme;
    let opened = r.in_function(kind).begin_scope();
    let declared = declare_parameters(declaration.parameters, 1, opened);
    assert(declared == opened.declare(name).define(name)) by {
        reveal_with_fuel(declare_parameters, 2);
    }
    assert(declared.scopes.len() > 0);
    assert(declared.scopes[declared.scopes.len() - 1].contains_key(name));
    assert(declared.scopes[declared.scopes.len() - 1][name]);
    let checked = declared.returning(true);
    assert(checked.scopes == declared.scopes);
    assert(innermost(checked.scopes, name, 0) == Some(0nat));
    let used = checked.variable(token);
    assert(used.locals == checked.locals.insert(token.id, 0));
    assert(resolve_expr(ExprModel::Variable { token }, checked) == used);
    assert(resolve_stmt(declaration.body[0], declared) == used);
    assert(resolve_stmts(declaration.body, 0, declared) == used) by {
        reveal_with_fuel(resolve_stmts, 3);
    }
}

} // verus!
