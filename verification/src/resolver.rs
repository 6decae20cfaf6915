use vstd::prelude::*;
use std::rc::Rc;
use crate::ast::{decls_view, exprs_view, stmts_view, Expr, FunDeclStatement, Statement};
use crate::error::{LoxError, LoxErrorKind};
use crate::scopes::{
    declare_parameters, innermost, method_kind, resolve_expr, resolve_exprs, resolve_function,
    resolve_methods, resolve_stmt, resolve_stmts, resolving_error, ClassType, FunctionType,
    Resolution,
};
use crate::table::Table;
use crate::tokens::Token;
use crate::tree_walker::TreeWalker;

verus! {

/// The static pass that binds every use of a local name to the number of
/// scopes between the use and the declaration.  The depths go to the
/// interpreter; the resolver keeps every error that it meets.
pub struct Resolver {
    /// For each local scope around the place that is being resolved, the
    /// names declared in it, and whether their initializer has been resolved.
    pub scopes: Vec<Table<bool>>,
    pub errors: Vec<LoxError>,
    pub current_function: FunctionType,
    pub current_class: ClassType,
}

impl Resolver {
    /// The state of the resolver beside an interpreter that holds `locals`.
    pub open spec fn state(&self, locals: Map<u32, usize>) -> Resolution {
        Resolution {
            scopes: Seq::new(self.scopes@.len(), |i: int| self.scopes@[i]@),
            errors: self.errors@,
            locals,
            function: self.current_function,
            class: self.current_class,
        }
    }

    /// The resolver and the interpreter are in the state `target`, and the
    /// interpreter differs from what it was in nothing but the depths.
    pub open spec fn reached(&self, interpreter: &TreeWalker, before: &TreeWalker, target: Resolution) -> bool {
        &&& self.state(interpreter@.locals) == target
        &&& interpreter@ == before@.with_locals(target.locals)
    }

    /// The resolver has changed as `change` says, whatever the interpreter
    /// holds.
    pub open spec fn changed(&self, before: &Resolver, change: spec_fn(Resolution) -> Resolution) -> bool {
        forall|locals: Map<u32, usize>| #[trigger] self.state(locals) == change(before.state(locals))
    }

    pub fn new() -> (resolver: Resolver)
        ensures
            resolver.scopes@.len() == 0,
            resolver.errors@.len() == 0,
            resolver.current_function == FunctionType::NoFunction,
            resolver.current_class == ClassType::NoClass,
    {
        Resolver {
            scopes: Vec::new(),
            errors: Vec::new(),
            current_function: FunctionType::NoFunction,
            current_class: ClassType::NoClass,
        }
    }

    /// Resolves the statements of a program, in order.
    pub fn resolve(&mut self, statements: &Vec<Statement>, interpreter: &mut TreeWalker)
        ensures
            final(self).reached(
                final(interpreter),
                old(interpreter),
                resolve_stmts(stmts_view(*statements), 0, old(self).state(old(interpreter)@.locals)),
            ),
        decreases statements, 1nat,
    {
        let mut i: usize = 0;
        while i < statements.len()
            invariant
                i <= statements.len(),
                interpreter@ == old(interpreter)@.with_locals(interpreter@.locals),
                resolve_stmts(stmts_view(*statements), i as nat, self.state(interpreter@.locals))
                    == resolve_stmts(stmts_view(*statements), 0, old(self).state(old(interpreter)@.locals)),
            decreases statements.len() - i,
        {
            self.resolve_statement(&statements[i], interpreter);
            i = i + 1;
        }
    }

    fn begin_scope(&mut self)
        ensures
            final(self).changed(old(self), |r: Resolution| r.begin_scope()),
    {
        self.scopes.push(Table::new());
        assert forall|locals: Map<u32, usize>| #[trigger]
            self.state(locals) == old(self).state(locals).begin_scope() by {
            assert(self.state(locals).scopes =~= old(self).state(locals).begin_scope().scopes);
        }
    }

    fn end_scope(&mut self)
        ensures
            final(self).changed(old(self), |r: Resolution| r.end_scope()),
    {
        self.scopes.pop();
        assert forall|locals: Map<u32, usize>| #[trigger]
            self.state(locals) == old(self).state(locals).end_scope() by {
            assert(self.state(locals).scopes =~= old(self).state(locals).end_scope().scopes);
        }
    }

    fn error(&mut self, message: &'static str)
        ensures
            final(self).changed(old(self), |r: Resolution| r.error(message)),
    {
        self.errors.push(LoxError { kind: LoxErrorKind::ResolvingError, message });
    }

    /// Puts a name into the innermost scope.
    fn put(&mut self, name: &String, ready: bool)
        ensures
            final(self).changed(old(self), |r: Resolution| r.put(name@, ready)),
    {
        let n = self.scopes.len();
        if n > 0 {
            let scope = &mut self.scopes[n - 1];
            scope.insert(name.clone(), ready);
            assert forall|locals: Map<u32, usize>| #[trigger]
                self.state(locals) == old(self).state(locals).put(name@, ready) by {
                assert(self.state(locals).scopes =~= old(self).state(locals).put(name@, ready).scopes);
            }
        }
    }

    fn declare(&mut self, name: &String)
        ensures
            final(self).changed(old(self), |r: Resolution| r.declare(name@)),
    {
        let n = self.scopes.len();
        if n > 0 && self.scopes[n - 1].contains_key(name) {
            self.error("Variable with this name already exists in this scope");
        }
        self.put(name, false);
    }

    fn define(&mut self, name: &String)
        ensures
            final(self).changed(old(self), |r: Resolution| r.define(name@)),
    {
        self.put(name, true);
    }

    fn resolve_local(&mut self, token: &Token, interpreter: &mut TreeWalker)
        ensures
            final(self).reached(
                final(interpreter),
                old(interpreter),
                old(self).state(old(interpreter)@.locals).resolve_local(token@),
            ),
            *final(self) == *old(self),
    {
        let n = self.scopes.len();
        let mut depth: usize = 0;
        let ghost scopes = self.state(interpreter@.locals).scopes;
        while depth < n
            invariant
                depth <= n,
                n == self.scopes@.len(),
                scopes == self.state(interpreter@.locals).scopes,
                innermost(scopes, token@.lexeme, depth as nat) == innermost(scopes, token@.lexeme, 0),
                *self == *old(self),
                *interpreter == *old(interpreter),
            decreases n - depth,
        {
            if self.scopes[n - 1 - depth].contains_key(&token.lexeme) {
                interpreter.resolve(token, depth);
                return ;
            }
            depth = depth + 1;
        }
    }

    fn visit_variable(&mut self, token: &Token, interpreter: &mut TreeWalker)
        ensures
            final(self).reached(
                final(interpreter),
                old(interpreter),
                old(self).state(old(interpreter)@.locals).variable(token@),
            ),
    {
        let n = self.scopes.len();
        if n > 0 {
            let unfinished = match self.scopes[n - 1].get(&token.lexeme) {
                Some(ready) => !*ready,
                None => false,
            };
            if unfinished {
                self.error("Can't read local variable in its own initializer");
            }
        }
        self.resolve_local(token, interpreter);
    }

    fn visit_this(&mut self, keyword: &Token, interpreter: &mut TreeWalker)
        ensures
            final(self).reached(
                final(interpreter),
                old(interpreter),
                old(self).state(old(interpreter)@.locals).this(keyword@),
            ),
    {
        match self.current_class {
            ClassType::NoClass => self.error("Can't use 'this' outside of a class"),
            _ => self.resolve_local(keyword, interpreter),
        }
    }

    fn visit_super(&mut self, keyword: &Token, interpreter: &mut TreeWalker)
        ensures
            final(self).reached(
                final(interpreter),
                old(interpreter),
                old(self).state(old(interpreter)@.locals).super_keyword(keyword@),
            ),
    {
        match self.current_class {
            ClassType::NoClass => self.error("Can't use 'super' outside of a class"),
            ClassType::Class => self.error("Can't use 'super' in a class with no superclass"),
            ClassType::Subclass => self.resolve_local(keyword, interpreter),
        }
    }

    fn check_return(&mut self, with_value: bool)
        ensures
            final(self).changed(old(self), |r: Resolution| r.returning(with_value)),
    {
        let inside = self.current_function;
        match inside {
            FunctionType::NoFunction => self.error("Can't have a return statement in top level code"),
            _ => {},
        }
        if with_value {
            match inside {
                FunctionType::Initializer => self.error("Can't return a value from an initializer"),
                _ => {},
            }
        }
    }

    /// Resolves an expression.
    pub fn resolve_expression(&mut self, expression: &Expr, interpreter: &mut TreeWalker)
        ensures
            final(self).reached(
                final(interpreter),
                old(interpreter),
                resolve_expr(expression@, old(self).state(old(interpreter)@.locals)),
            ),
        decreases expression, 0nat,
    {
        match expression {
            Expr::Binary { left, right, .. } => {
                self.resolve_expression(left, interpreter);
                self.resolve_expression(right, interpreter);
            },
            Expr::Unary { right, .. } => {
                self.resolve_expression(right, interpreter);
            },
            Expr::Literal { .. } => {},
            Expr::Grouping { expr } => {
                self.resolve_expression(expr, interpreter);
            },
            Expr::Variable { token } => {
                self.visit_variable(token, interpreter);
            },
            Expr::Assignment { token, value } => {
                self.resolve_expression(value, interpreter);
                self.resolve_local(token, interpreter);
            },
            Expr::Logical { left, right, .. } => {
                self.resolve_expression(left, interpreter);
                self.resolve_expression(right, interpreter);
            },
            Expr::Call { callee, arguments, .. } => {
                self.resolve_expression(callee, interpreter);
                self.resolve_expressions(arguments, interpreter);
            },
            Expr::Get { object, .. } => {
                self.resolve_expression(object, interpreter);
            },
            Expr::SetProperty { object, value, .. } => {
                self.resolve_expression(value, interpreter);
                self.resolve_expression(object, interpreter);
            },
            Expr::This { keyword } => {
                self.visit_this(keyword, interpreter);
            },
            Expr::Super { keyword, .. } => {
                self.visit_super(keyword, interpreter);
            },
        }
    }

    /// Resolves the arguments of a call, in order.
    fn resolve_expressions(&mut self, list: &Vec<Expr>, interpreter: &mut TreeWalker)
        ensures
            final(self).reached(
                final(interpreter),
                old(interpreter),
                resolve_exprs(exprs_view(*list), 0, old(self).state(old(interpreter)@.locals)),
            ),
        decreases list, 1nat,
    {
        let mut i: usize = 0;
        while i < list.len()
            invariant
                i <= list.len(),
                interpreter@ == old(interpreter)@.with_locals(interpreter@.locals),
                resolve_exprs(exprs_view(*list), i as nat, self.state(interpreter@.locals))
                    == resolve_exprs(exprs_view(*list), 0, old(self).state(old(interpreter)@.locals)),
            decreases list.len() - i,
        {
            self.resolve_expression(&list[i], interpreter);
            i = i + 1;
        }
    }

    /// Resolves a statement.
    pub fn resolve_statement(&mut self, statement: &Statement, interpreter: &mut TreeWalker)
        ensures
            final(self).reached(
                final(interpreter),
                old(interpreter),
                resolve_stmt(statement@, old(self).state(old(interpreter)@.locals)),
            ),
        decreases statement, 2nat,
    {
        match statement {
            Statement::ExpressionStatement { expression } => {
                self.resolve_expression(expression, interpreter);
            },
            Statement::PrintStatement { value, .. } => {
                self.resolve_expression(value, interpreter);
            },
            Statement::IfStatement { .. } => {
                self.visit_if_statement(statement, interpreter);
            },
            Statement::WhileStatement { condition, body } => {
                self.visit_while_statement(condition, body, interpreter);
            },
            Statement::ReturnStatement { value, .. } => {
                self.visit_return_statement(value, interpreter);
            },
            _ => {
                self.resolve_declaration(statement, interpreter);
            },
        }
    }

    /// Resolves a statement that declares something or opens a scope.
    fn resolve_declaration(&mut self, statement: &Statement, interpreter: &mut TreeWalker)
        requires
            statement is VarDeclStatement || statement is BlockStatement || statement is FunDeclStatement
                || statement is ClassDeclStatement,
        ensures
            final(self).reached(
                final(interpreter),
                old(interpreter),
                resolve_stmt(statement@, old(self).state(old(interpreter)@.locals)),
            ),
        decreases statement, 1nat,
    {
        match statement {
            Statement::VarDeclStatement { token, initializer } => {
                self.visit_var_decl_statement(token, initializer, interpreter);
            },
            Statement::BlockStatement { statements } => {
                self.visit_block_statement(statements, interpreter);
            },
            Statement::FunDeclStatement { declaration } => {
                self.visit_fun_decl_statement(declaration, interpreter);
            },
            Statement::ClassDeclStatement { name, methods, superclass } => {
                self.visit_class_decl_statement(name, methods, superclass, interpreter);
            },
            _ => {},
        }
    }

    fn visit_if_statement(&mut self, statement: &Statement, interpreter: &mut TreeWalker)
        requires
            statement is IfStatement,
        ensures
            final(self).reached(
                final(interpreter),
                old(interpreter),
                resolve_stmt(statement@, old(self).state(old(interpreter)@.locals)),
            ),
        decreases statement, 0nat,
    {
        match statement {
            Statement::IfStatement { condition, then_branch, else_branch } => {
                self.resolve_expression(condition, interpreter);
                self.resolve_statement(then_branch, interpreter);
                match else_branch {
                    Some(other) => {
                        self.resolve_statement(other, interpreter);
                    },
                    None => {},
                }
            },
            _ => {},
        }
    }

    fn visit_while_statement(&mut self, condition: &Expr, body: &Box<Statement>, interpreter: &mut TreeWalker)
        ensures
            final(self).reached(
                final(interpreter),
                old(interpreter),
                resolve_stmt((**body)@, resolve_expr(condition@, old(self).state(old(interpreter)@.locals))),
            ),
        decreases body, 3nat,
    {
        self.resolve_expression(condition, interpreter);
        self.resolve_statement(body, interpreter);
    }

    fn visit_var_decl_statement(&mut self, token: &Token, initializer: &Option<Expr>, interpreter: &mut TreeWalker)
        ensures
            final(self).reached(
                final(interpreter),
                old(interpreter),
                match crate::ast::option_expr_view(*initializer) {
                    Some(e) => resolve_expr(
                        e,
                        old(self).state(old(interpreter)@.locals).declare(token@.lexeme),
                    ).define(token@.lexeme),
                    None => old(self).state(old(interpreter)@.locals).declare(token@.lexeme).define(
                        token@.lexeme,
                    ),
                },
            ),
        decreases initializer, 1nat,
    {
        let ghost r0 = self.state(interpreter@.locals);
        self.declare(&token.lexeme);
        assert(self.state(interpreter@.locals) == r0.declare(token@.lexeme));
        match initializer {
            Some(e) => {
                self.resolve_expression(e, interpreter);
            },
            None => {},
        }
        let ghost r1 = self.state(interpreter@.locals);
        self.define(&token.lexeme);
        assert(self.state(interpreter@.locals) == r1.define(token@.lexeme));
    }

    fn visit_block_statement(&mut self, statements: &Vec<Statement>, interpreter: &mut TreeWalker)
        ensures
            final(self).reached(
                final(interpreter),
                old(interpreter),
                resolve_stmts(
                    stmts_view(*statements),
                    0,
                    old(self).state(old(interpreter)@.locals).begin_scope(),
                ).end_scope(),
            ),
        decreases statements, 2nat,
    {
        let ghost r0 = self.state(interpreter@.locals);
        self.begin_scope();
        assert(self.state(interpreter@.locals) == r0.begin_scope());
        self.resolve(statements, interpreter);
        let ghost r1 = self.state(interpreter@.locals);
        self.end_scope();
        assert(self.state(interpreter@.locals) == r1.end_scope());
    }

    fn visit_fun_decl_statement(&mut self, declaration: &FunDeclStatement, interpreter: &mut TreeWalker)
        ensures
            final(self).reached(
                final(interpreter),
                old(interpreter),
                resolve_function(
                    declaration@,
                    FunctionType::Function,
                    old(self).state(old(interpreter)@.locals).declare(declaration@.name.lexeme).define(
                        declaration@.name.lexeme,
                    ),
                ),
            ),
        decreases declaration, 1nat,
    {
        let ghost r0 = self.state(interpreter@.locals);
        self.declare(&declaration.name.lexeme);
        assert(self.state(interpreter@.locals) == r0.declare(declaration@.name.lexeme));
        let ghost r1 = self.state(interpreter@.locals);
        self.define(&declaration.name.lexeme);
        assert(self.state(interpreter@.locals) == r1.define(declaration@.name.lexeme));
        self.resolve_function(declaration, FunctionType::Function, interpreter);
    }

    fn visit_return_statement(&mut self, value: &Option<Expr>, interpreter: &mut TreeWalker)
        ensures
            final(self).reached(
                final(interpreter),
                old(interpreter),
                match crate::ast::option_expr_view(*value) {
                    Some(e) => resolve_expr(e, old(self).state(old(interpreter)@.locals).returning(true)),
                    None => old(self).state(old(interpreter)@.locals).returning(false),
                },
            ),
        decreases value, 1nat,
    {
        let ghost r0 = self.state(interpreter@.locals);
        match value {
            Some(e) => {
                self.check_return(true);
                assert(self.state(interpreter@.locals) == r0.returning(true));
                self.resolve_expression(e, interpreter);
            },
            None => {
                self.check_return(false);
                assert(self.state(interpreter@.locals) == r0.returning(false));
            },
        }
    }

    /// Resolves the body of a function, in a new scope that declares the
    /// parameters.
    fn resolve_function(&mut self, declaration: &FunDeclStatement, kind: FunctionType, interpreter: &mut TreeWalker)
        ensures
            final(self).reached(
                final(interpreter),
                old(interpreter),
                resolve_function(declaration@, kind, old(self).state(old(interpreter)@.locals)),
            ),
        decreases declaration, 0nat,
    {
        let enclosing_function = self.current_function;
        let ghost r0 = self.state(interpreter@.locals);
        self.current_function = kind;
        assert(self.state(interpreter@.locals) == r0.in_function(kind));
        self.begin_scope();
        assert(self.state(interpreter@.locals) == r0.in_function(kind).begin_scope());
        let mut i: usize = 0;
        let ghost start = self.state(interpreter@.locals);
        while i < declaration.parameters.len()
            invariant
                i <= declaration.parameters.len(),
                *interpreter == *old(interpreter),
                self.state(interpreter@.locals) == declare_parameters(
                    declaration@.parameters,
                    i as nat,
                    start,
                ),
            decreases declaration.parameters.len() - i,
        {
            let ghost p0 = self.state(interpreter@.locals);
            self.declare(&declaration.parameters[i].lexeme);
            assert(self.state(interpreter@.locals) == p0.declare(declaration@.parameters[i as int].lexeme));
            let ghost p1 = self.state(interpreter@.locals);
            self.define(&declaration.parameters[i].lexeme);
            assert(self.state(interpreter@.locals) == p1.define(declaration@.parameters[i as int].lexeme));
            i = i + 1;
        }
        self.resolve(&declaration.body, interpreter);
        let ghost r2 = self.state(interpreter@.locals);
        self.end_scope();
        assert(self.state(interpreter@.locals) == r2.end_scope());
        let ghost r3 = self.state(interpreter@.locals);
        self.current_function = enclosing_function;
        assert(self.state(interpreter@.locals) == r3.in_function(enclosing_function));
    }

    /// Resolves the methods of a class, in order.
    fn resolve_methods(&mut self, list: &Vec<Rc<FunDeclStatement>>, interpreter: &mut TreeWalker)
        ensures
            final(self).reached(
                final(interpreter),
                old(interpreter),
                resolve_methods(decls_view(*list), 0, old(self).state(old(interpreter)@.locals)),
            ),
        decreases list, 1nat,
    {
        let init = "init".to_owned();
        let mut i: usize = 0;
        while i < list.len()
            invariant
                i <= list.len(),
                init@ == "init"@,
                interpreter@ == old(interpreter)@.with_locals(interpreter@.locals),
                resolve_methods(decls_view(*list), i as nat, self.state(interpreter@.locals))
                    == resolve_methods(decls_view(*list), 0, old(self).state(old(interpreter)@.locals)),
            decreases list.len() - i,
        {
            let kind = if list[i].name.lexeme == init {
                FunctionType::Initializer
            } else {
                FunctionType::Method
            };
            self.resolve_function(&list[i], kind, interpreter);
            i = i + 1;
        }
    }

    fn visit_class_decl_statement(
        &mut self,
        name: &Token,
        methods: &Vec<Rc<FunDeclStatement>>,
        superclass: &Option<Token>,
        interpreter: &mut TreeWalker,
    )
        ensures
            final(self).reached(
                final(interpreter),
                old(interpreter),
                resolve_methods(
                    decls_view(*methods),
                    0,
                    old(self).state(old(interpreter)@.locals).enter_class(
                        name@,
                        crate::ast::option_token_view(*superclass),
                    ),
                ).leave_class(superclass is Some, old(self).current_class),
            ),
        decreases methods, 2nat,
    {
        let enclosing_class = self.current_class;
        let ghost r0 = self.state(interpreter@.locals);
        self.current_class = ClassType::Class;
        assert(self.state(interpreter@.locals) == r0.in_class(ClassType::Class));
        self.declare(&name.lexeme);
        assert(self.state(interpreter@.locals) == r0.in_class(ClassType::Class).declare(name@.lexeme));
        let ghost r1 = self.state(interpreter@.locals);
        self.define(&name.lexeme);
        assert(self.state(interpreter@.locals) == r1.define(name@.lexeme));
        let ghost named = self.state(interpreter@.locals);
        match superclass {
            Some(token) => {
                self.current_class = ClassType::Subclass;
                assert(self.state(interpreter@.locals) == named.in_class(ClassType::Subclass));
                let ghost sub = self.state(interpreter@.locals);
                if token.lexeme == name.lexeme {
                    self.error("A class can't inherit from itself");
                    assert(self.state(interpreter@.locals) == sub.error("A class can't inherit from itself"));
                }
                self.visit_variable(token, interpreter);
                let ghost r2 = self.state(interpreter@.locals);
                self.begin_scope();
                assert(self.state(interpreter@.locals) == r2.begin_scope());
                let ghost r3 = self.state(interpreter@.locals);
                let name_of_super = "super".to_owned();
                self.put(&name_of_super, true);
                assert(self.state(interpreter@.locals) == r3.put("super"@, true));
            },
            None => {},
        }
        let ghost r4 = self.state(interpreter@.locals);
        self.begin_scope();
        assert(self.state(interpreter@.locals) == r4.begin_scope());
        let ghost r5 = self.state(interpreter@.locals);
        let this = "this".to_owned();
        self.put(&this, true);
        assert(self.state(interpreter@.locals) == r5.put("this"@, true));
        assert(self.state(interpreter@.locals) == r0.enter_class(
            name@,
            crate::ast::option_token_view(*superclass),
        ));
        self.resolve_methods(methods, interpreter);
        let ghost r6 = self.state(interpreter@.locals);
        self.end_scope();
        assert(self.state(interpreter@.locals) == r6.end_scope());
        if superclass.is_some() {
            let ghost r7 = self.state(interpreter@.locals);
            self.end_scope();
            assert(self.state(interpreter@.locals) == r7.end_scope());
        }
        let ghost r8 = self.state(interpreter@.locals);
        self.current_class = enclosing_class;
        assert(self.state(interpreter@.locals) == r8.in_class(enclosing_class));
    }
}

} // verus!
