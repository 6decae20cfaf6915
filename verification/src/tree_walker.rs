use vstd::prelude::*;
use vstd::string::StringExecFns;
use std::collections::HashMap;
use std::rc::Rc;
use crate::ast::{
    decls_view, exprs_view, stmts_view, BinaryOperator, Expr, ExprModel, FunDeclStatement,
    LogicalOperator, Statement, StmtModel, UnaryOperator,
};
use crate::callable::{share, Callable, Function};
use crate::class::{deep_functions, lemma_deep_functions_empty, lemma_deep_functions_insert, LoxClass};
use crate::environment::{EnvModel, Environment};
use crate::error::{LoxError, LoxErrorKind};
use crate::heap::{Heap, HeapModel};
use crate::number::{FloatUnit, NumberOp};
use crate::native::clock_value;
use crate::output::Recorder;
use crate::semantics;
use crate::semantics::{Evaluated, FlowModel, Outcome, Readings, WalkerModel};
use crate::table::Table;
use crate::tokens::{LiteralValue, Token};
use crate::value::{apply_binary, apply_unary, value_outcome, value_views, Value, ValueModel};

verus! {

broadcast use vstd::std_specs::hash::group_hash_axioms;

/// How a statement ended: it ran to its end, or it returns a value from the
/// function around it.
#[derive(Debug)]
pub enum Completion {
    Normal,
    Return(Value),
}

impl View for Completion {
    type V = FlowModel;

    open spec fn view(&self) -> FlowModel {
        match self {
            Completion::Normal => FlowModel::Normal,
            Completion::Return(v) => FlowModel::Return(v@),
        }
    }
}

/// The interpreter: it runs statements against a chain of scopes.
pub struct TreeWalker {
    pub heap: Heap,
    /// The handle of the current scope.
    pub environment: usize,
    /// The handle of the global scope.
    pub globals: usize,
    pub outputter: Recorder,
    /// For each token that names a local variable, by its id, the number of
    /// scopes between its use and its declaration.
    pub locals: HashMap<u32, usize>,
    /// How deep an evaluation may go.
    pub budget: u64,
    /// What the system clock said each time that `clock` was called.
    pub clock: Ghost<Seq<Option<u64>>>,
}

impl View for TreeWalker {
    type V = WalkerModel;

    open spec fn view(&self) -> WalkerModel {
        WalkerModel {
            heap: self.heap@,
            environment: self.environment,
            globals: self.globals,
            locals: self.locals@,
            output: self.outputter@,
            budget: self.budget,
            clock: self.clock@,
        }
    }
}

/// The state of a new interpreter: one scope, the global one, which holds
/// `clock`.
pub open spec fn initial_state(output: Seq<Seq<char>>) -> WalkerModel {
    WalkerModel {
        heap: HeapModel {
            envs: seq![
                EnvModel { values: Map::empty().insert("clock"@, ValueModel::Clock), parent: None },
            ],
            classes: Seq::empty(),
            instances: Seq::empty(),
        },
        environment: 0,
        globals: 0,
        locals: Map::empty(),
        output,
        budget: u64::MAX,
        clock: Seq::empty(),
    }
}

/// The readings that the clock gave so far are those that `now` foretells.
pub open spec fn foretold(log: Seq<Option<u64>>, now: Readings) -> bool {
    forall|i: nat| i < log.len() ==> #[trigger] now(i) == log[i as int]
}

/// The later list of readings holds the earlier one at its start.
pub open spec fn kept(before: Seq<Option<u64>>, after: Seq<Option<u64>>) -> bool {
    &&& before.len() <= after.len()
    &&& forall|i: int| 0 <= i < before.len() ==> #[trigger] after[i] == before[i]
}

/// What foretells the later readings foretells the earlier ones.
pub proof fn lemma_foretold_earlier(before: Seq<Option<u64>>, after: Seq<Option<u64>>, now: Readings)
    requires
        kept(before, after),
        foretold(after, now),
    ensures
        foretold(before, now),
{
    assert forall|i: nat| i < before.len() implies #[trigger] now(i) == before[i as int] by {
        assert(after[i as int] == before[i as int]);
    }
}

/// The executable result is the one that the semantics gives, and so is the
/// state.
pub open spec fn agrees_value(res: Result<Value, LoxError>, state: WalkerModel, m: Evaluated<ValueModel>) -> bool {
    match m.outcome {
        Outcome::Value(v) => value_outcome(res) == Ok::<ValueModel, LoxError>(v) && state == m.state,
        Outcome::Failure(e) => res == Err::<Value, LoxError>(e) && state == m.state,
    }
}

pub open spec fn flow_outcome(r: Result<Completion, LoxError>) -> Result<FlowModel, LoxError> {
    match r {
        Ok(c) => Ok(c@),
        Err(e) => Err(e),
    }
}

pub open spec fn agrees_flow(res: Result<Completion, LoxError>, state: WalkerModel, m: Evaluated<FlowModel>) -> bool {
    match m.outcome {
        Outcome::Value(flow) => flow_outcome(res) == Ok::<FlowModel, LoxError>(flow) && state == m.state,
        Outcome::Failure(e) => res == Err::<Completion, LoxError>(e) && state == m.state,
    }
}

fn budget_exhausted() -> (e: LoxError)
    ensures
        e == crate::value::runtime_error("evaluation budget exhausted"),
{
    LoxError { kind: LoxErrorKind::RuntimeError, message: "evaluation budget exhausted" }
}

impl TreeWalker {
    pub fn new() -> (walker: TreeWalker)
        ensures
            walker@ == initial_state(Seq::empty()),
    {
        TreeWalker::new_from_outputter(Recorder::new())
    }

    pub fn new_from_outputter(outputter: Recorder) -> (walker: TreeWalker)
        ensures
            walker@ == initial_state(outputter@),
    {
        let mut heap = Heap::new();
        let mut environment = Environment::new();
        let clock = "clock".to_owned();
        environment.define(&clock, Value::Callable(Callable::Clock));
        let globals = heap.add_environment(environment);
        let walker = TreeWalker {
            heap,
            environment: globals,
            globals,
            outputter,
            locals: HashMap::new(),
            budget: u64::MAX,
            clock: Ghost(Seq::empty()),
        };
        assert(walker@.heap.envs =~= initial_state(outputter@).heap.envs);
        walker
    }

    /// Records the depth that the resolver found for a token.
    pub fn resolve(&mut self, token: &Token, depth: usize)
        ensures
            final(self)@ == old(self)@.resolve(token@, depth),
    {
        self.locals.insert(token.id, depth);
    }

    /// The value of a variable.
    fn look_up_variable(&self, token: &Token) -> (res: Result<Value, LoxError>)
        ensures
            value_outcome(res) == self@.look_up(token@),
    {
        match self.locals.get(&token.id) {
            Some(depth) => self.heap.get_at(self.environment, &token.lexeme, *depth),
            None => self.heap.get_at(self.globals, &token.lexeme, 0),
        }
    }

    /// Writes a variable.
    fn assign_variable(&mut self, token: &Token, value: Value) -> (res: Result<(), LoxError>)
        ensures
            match old(self)@.assign(token@, value@) {
                Ok(state) => res is Ok && final(self)@ == state,
                Err(e) => res == Err::<(), LoxError>(e) && final(self)@ == old(self)@,
            },
    {
        let depth = match self.locals.get(&token.id) {
            Some(depth) => Some(*depth),
            None => None,
        };
        match depth {
            Some(depth) => self.heap.assign_at(self.environment, depth, &token.lexeme, value),
            None => self.heap.assign(self.globals, &token.lexeme, value),
        }
    }

    /// Gives a name a value in the current scope.
    fn define(&mut self, name: &String, value: Value) -> (res: Result<(), LoxError>)
        ensures
            match old(self)@.define(name@, value@) {
                Ok(state) => res is Ok && final(self)@ == state,
                Err(e) => res == Err::<(), LoxError>(e) && final(self)@ == old(self)@,
            },
    {
        self.heap.define(self.environment, name, value)
    }

    /// The text that a value prints as.
    pub fn render<P: Fn(String) -> Option<u64>, A: Fn(NumberOp, u64, u64) -> u64, R: Fn(u64) -> String>(
        &self,
        value: &Value,
        unit: &FloatUnit<P, A, R>,
    ) -> (text: String)
        requires
            unit.dependable(),
        ensures
            text@ == semantics::render(unit, self@.heap, value@),
    {
        match value {
            Value::NumberValue(n) => unit.print(*n),
            Value::StringValue(s) => s.clone(),
            Value::BooleanValue(b) => if *b {
                "true".to_owned()
            } else {
                "false".to_owned()
            },
            Value::NilValue => "nil".to_owned(),
            Value::Callable(Callable::Function(f)) => {
                let mut text = "<fn ".to_owned();
                text.append(f.declaration.name.lexeme.as_str());
                text.append(">");
                text
            },
            Value::Callable(Callable::Clock) => "<native fn clock>".to_owned(),
            Value::ClassValue(c) => {
                let mut text = "<class ".to_owned();
                if *c < self.heap.classes.len() {
                    text.append(self.heap.classes[*c].name.as_str());
                }
                text.append(">");
                text
            },
            Value::InstanceValue(i) => {
                let mut text = "<".to_owned();
                if *i < self.heap.instances.len() {
                    let class = self.heap.instances[*i].class;
                    if class < self.heap.classes.len() {
                        text.append(self.heap.classes[class].name.as_str());
                    }
                }
                text.append(" instance>");
                text
            },
        }
    }

    /// Runs a statement with the interpreter's budget.  The result and the
    /// state are those that the semantics gives for the readings that the
    /// system clock gave, which are added to the log of readings.
    pub fn visit_statement<P: Fn(String) -> Option<u64>, A: Fn(NumberOp, u64, u64) -> u64, R: Fn(u64) -> String>(
        &mut self,
        stmt: &Statement,
        unit: &FloatUnit<P, A, R>,
    ) -> (res: Result<Completion, LoxError>)
        requires
            unit.dependable(),
        ensures
            kept(old(self)@.clock, final(self)@.clock),
            forall|now: Readings| #[trigger]
                foretold(final(self)@.clock, now) ==> agrees_flow(
                res,
                final(self)@,
                semantics::exec(unit, now, stmt@, old(self)@, old(self).budget as nat),
            ),
    {
        let fuel = self.budget;
        self.execute(stmt, unit, fuel)
    }

    /// Runs a statement.
    pub fn execute<P: Fn(String) -> Option<u64>, A: Fn(NumberOp, u64, u64) -> u64, R: Fn(u64) -> String>(
        &mut self,
        stmt: &Statement,
        unit: &FloatUnit<P, A, R>,
        fuel: u64,
    ) -> (res: Result<Completion, LoxError>)
        requires
            unit.dependable(),
        ensures
            kept(old(self)@.clock, final(self)@.clock),
            forall|now: Readings| #[trigger]
                foretold(final(self)@.clock, now) ==> agrees_flow(res, final(self)@, semantics::exec(unit, now, stmt@, old(self)@, fuel as nat)),
        decreases fuel, 1nat,
    {
        if fuel == 0 {
            return Err(budget_exhausted());
        }
        match stmt {
            Statement::PrintStatement { token, value } => self.visit_print_statement(value, unit, fuel),
            Statement::ExpressionStatement { expression } => self.visit_expression_statement(
                expression,
                unit,
                fuel,
            ),
            Statement::VarDeclStatement { token, initializer } => self.visit_var_decl_statement(
                token,
                initializer,
                unit,
                fuel,
            ),
            Statement::BlockStatement { statements } => self.visit_block_statement(statements, unit, fuel),
            Statement::IfStatement { condition, then_branch, else_branch } => self.visit_if_statement(
                condition,
                then_branch,
                else_branch,
                unit,
                fuel,
            ),
            Statement::WhileStatement { condition, body } => self.visit_while_statement(
                condition,
                body,
                unit,
                fuel,
            ),
            Statement::FunDeclStatement { declaration } => self.visit_fun_decl_statement(declaration),
            Statement::ReturnStatement { keyword, value } => self.visit_return_statement(value, unit, fuel),
            Statement::ClassDeclStatement { name, methods, superclass } => self.visit_class_decl_statement(
                name,
                methods,
                superclass,
            ),
        }
    }

    fn visit_print_statement<P: Fn(String) -> Option<u64>, A: Fn(NumberOp, u64, u64) -> u64, R: Fn(u64) -> String>(
        &mut self,
        value: &Expr,
        unit: &FloatUnit<P, A, R>,
        fuel: u64,
    ) -> (res: Result<Completion, LoxError>)
        requires
            unit.dependable(),
            fuel > 0,
        ensures
            kept(old(self)@.clock, final(self)@.clock),
            forall|now: Readings| #[trigger]
                foretold(final(self)@.clock, now) ==> agrees_flow(res, final(self)@, semantics::print_effect(unit, now, value@, old(self)@, fuel as nat)),
        decreases fuel, 0nat,
    {
        match self.visit_expr(value, unit, fuel - 1) {
            Ok(v) => {
                let text = self.render(&v, unit);
                self.outputter.output_value(text);
                Ok(Completion::Normal)
            },
            Err(e) => Err(e),
        }
    }

    fn visit_expression_statement<P: Fn(String) -> Option<u64>, A: Fn(NumberOp, u64, u64) -> u64, R: Fn(u64) -> String>(
        &mut self,
        expression: &Expr,
        unit: &FloatUnit<P, A, R>,
        fuel: u64,
    ) -> (res: Result<Completion, LoxError>)
        requires
            unit.dependable(),
            fuel > 0,
        ensures
            kept(old(self)@.clock, final(self)@.clock),
            forall|now: Readings| #[trigger]
                foretold(final(self)@.clock, now) ==> agrees_flow(
                res,
                final(self)@,
                semantics::expression_effect(unit, now, expression@, old(self)@, fuel as nat),
            ),
        decreases fuel, 0nat,
    {
        match self.visit_expr(expression, unit, fuel - 1) {
            Ok(_) => Ok(Completion::Normal),
            Err(e) => Err(e),
        }
    }

    fn visit_var_decl_statement<P: Fn(String) -> Option<u64>, A: Fn(NumberOp, u64, u64) -> u64, R: Fn(u64) -> String>(
        &mut self,
        token: &Token,
        initializer: &Option<Expr>,
        unit: &FloatUnit<P, A, R>,
        fuel: u64,
    ) -> (res: Result<Completion, LoxError>)
        requires
            unit.dependable(),
            fuel > 0,
        ensures
            kept(old(self)@.clock, final(self)@.clock),
            forall|now: Readings| #[trigger]
                foretold(final(self)@.clock, now) ==> agrees_flow(
                res,
                final(self)@,
                semantics::var_effect(
                    unit,
now,
                    token@,
                    crate::ast::option_expr_view(*initializer),
                    old(self)@,
                    fuel as nat,
                ),
            ),
        decreases fuel, 0nat,
    {
        let initial_value = match initializer {
            Some(e) => match self.visit_expr(e, unit, fuel - 1) {
                Ok(v) => v,
                Err(e) => {
                    return Err(e);
                },
            },
            None => Value::NilValue,
        };
        match self.define(&token.lexeme, initial_value) {
            Ok(()) => Ok(Completion::Normal),
            Err(e) => Err(e),
        }
    }

    fn visit_block_statement<P: Fn(String) -> Option<u64>, A: Fn(NumberOp, u64, u64) -> u64, R: Fn(u64) -> String>(
        &mut self,
        statements: &Vec<Statement>,
        unit: &FloatUnit<P, A, R>,
        fuel: u64,
    ) -> (res: Result<Completion, LoxError>)
        requires
            unit.dependable(),
            fuel > 0,
        ensures
            kept(old(self)@.clock, final(self)@.clock),
            forall|now: Readings| #[trigger]
                foretold(final(self)@.clock, now) ==> agrees_flow(
                res,
                final(self)@,
                semantics::block_effect(unit, now, stmts_view(*statements), old(self)@, fuel as nat),
            ),
        decreases fuel, 0nat,
    {
        let scope = self.heap.add_environment(Environment::inside(self.environment));
        self.execute_block(statements, scope, unit, fuel - 1)
    }

    fn visit_if_statement<P: Fn(String) -> Option<u64>, A: Fn(NumberOp, u64, u64) -> u64, R: Fn(u64) -> String>(
        &mut self,
        condition: &Expr,
        then_branch: &Statement,
        else_branch: &Option<Box<Statement>>,
        unit: &FloatUnit<P, A, R>,
        fuel: u64,
    ) -> (res: Result<Completion, LoxError>)
        requires
            unit.dependable(),
            fuel > 0,
        ensures
            kept(old(self)@.clock, final(self)@.clock),
            forall|now: Readings| #[trigger]
                foretold(final(self)@.clock, now) ==> agrees_flow(
                res,
                final(self)@,
                semantics::if_effect(
                    unit,
now,
                    condition@,
                    then_branch@,
                    crate::tree_walker::option_branch_view(*else_branch),
                    old(self)@,
                    fuel as nat,
                ),
            ),
        decreases fuel, 0nat,
    {
        let test = match self.visit_expr(condition, unit, fuel - 1) {
            Ok(v) => v,
            Err(e) => {
                return Err(e);
            },
        };
        let ghost first = self@.clock;
        let res = if test.is_truthy() {
            self.execute(then_branch, unit, fuel - 1)
        } else {
            match else_branch {
                Some(other) => self.execute(other, unit, fuel - 1),
                None => Ok(Completion::Normal),
            }
        };
        proof {
            assert forall|now: Readings| #[trigger] foretold(self@.clock, now) implies agrees_flow(
                res,
                self@,
                semantics::if_effect(
                    unit,
                    now,
                    condition@,
                    then_branch@,
                    crate::tree_walker::option_branch_view(*else_branch),
                    old(self)@,
                    fuel as nat,
                ),
            ) by {
                lemma_foretold_earlier(first, self@.clock, now);
            }
        }
        res
    }

    fn visit_while_statement<P: Fn(String) -> Option<u64>, A: Fn(NumberOp, u64, u64) -> u64, R: Fn(u64) -> String>(
        &mut self,
        condition: &Expr,
        body: &Statement,
        unit: &FloatUnit<P, A, R>,
        fuel: u64,
    ) -> (res: Result<Completion, LoxError>)
        requires
            unit.dependable(),
            fuel > 0,
        ensures
            kept(old(self)@.clock, final(self)@.clock),
            forall|now: Readings| #[trigger]
                foretold(final(self)@.clock, now) ==> agrees_flow(
                res,
                final(self)@,
                semantics::exec_while(
                    unit,
                    now,
                    condition@,
                    body@,
                    old(self)@,
                    (fuel - 1) as nat,
                    semantics::MAX_ROUNDS as nat,
                ),
            ),
        decreases fuel, 0nat,
    {
        let mut rounds: u64 = semantics::MAX_ROUNDS;
        loop
            invariant
                unit.dependable(),
                fuel > 0,
                kept(old(self)@.clock, self@.clock),
                forall|now: Readings| #[trigger]
                    foretold(self@.clock, now) ==> semantics::exec_while(
                        unit,
                        now,
                        condition@,
                        body@,
                        self@,
                        (fuel - 1) as nat,
                        rounds as nat,
                    ) == semantics::exec_while(
                                unit,
                                now,
                                condition@,
                                body@,
                                old(self)@,
                                (fuel - 1) as nat,
                                semantics::MAX_ROUNDS as nat,
                            ),
            decreases rounds,
        {
            if rounds == 0 {
                return Err(budget_exhausted());
            }
            let ghost start = self@.clock;
            let test = match self.visit_expr(condition, unit, fuel - 1) {
                Ok(v) => v,
                Err(e) => {
                    proof {
                        assert forall|now: Readings| #[trigger] foretold(self@.clock, now) implies agrees_flow(
                            Err(e),
                            self@,
                            semantics::exec_while(
                                unit,
                                now,
                                condition@,
                                body@,
                                old(self)@,
                                (fuel - 1) as nat,
                                semantics::MAX_ROUNDS as nat,
                            ),
                        ) by {
                            lemma_foretold_earlier(start, self@.clock, now);
                        }
                    }
                    return Err(e);
                },
            };
            if !test.is_truthy() {
                proof {
                    assert forall|now: Readings| #[trigger] foretold(self@.clock, now) implies agrees_flow(
                        Ok(Completion::Normal),
                        self@,
                        semantics::exec_while(
                                unit,
                                now,
                                condition@,
                                body@,
                                old(self)@,
                                (fuel - 1) as nat,
                                semantics::MAX_ROUNDS as nat,
                            ),
                    ) by {
                        lemma_foretold_earlier(start, self@.clock, now);
                    }
                }
                return Ok(Completion::Normal);
            }
            let ghost tested = self@.clock;
            let round = self.execute(body, unit, fuel - 1);
            proof {
                assert forall|now: Readings| #[trigger] foretold(self@.clock, now) implies (match round {
                    Ok(Completion::Normal) => semantics::exec_while(
                        unit,
                        now,
                        condition@,
                        body@,
                        self@,
                        (fuel - 1) as nat,
                        (rounds - 1) as nat,
                    ) == semantics::exec_while(
                                unit,
                                now,
                                condition@,
                                body@,
                                old(self)@,
                                (fuel - 1) as nat,
                                semantics::MAX_ROUNDS as nat,
                            ),
                    _ => agrees_flow(
                        round,
                        self@,
                        semantics::exec_while(
                                unit,
                                now,
                                condition@,
                                body@,
                                old(self)@,
                                (fuel - 1) as nat,
                                semantics::MAX_ROUNDS as nat,
                            ),
                    ),
                }) by {
                    lemma_foretold_earlier(tested, self@.clock, now);
                    lemma_foretold_earlier(start, tested, now);
                }
            }
            match round {
                Ok(Completion::Normal) => {},
                Ok(Completion::Return(v)) => {
                    return Ok(Completion::Return(v));
                },
                Err(e) => {
                    return Err(e);
                },
            }
            rounds = rounds - 1;
        }
    }

    fn visit_fun_decl_statement(&mut self, declaration: &Rc<FunDeclStatement>) -> (res: Result<
        Completion,
        LoxError,
    >)
        ensures
            agrees_flow(res, final(self)@, semantics::fun_effect((**declaration)@, old(self)@)),
    {
        let function = Function::new(share(declaration), self.environment, false);
        match self.define(&declaration.name.lexeme, Value::Callable(Callable::Function(function))) {
            Ok(()) => Ok(Completion::Normal),
            Err(e) => Err(e),
        }
    }

    fn visit_return_statement<P: Fn(String) -> Option<u64>, A: Fn(NumberOp, u64, u64) -> u64, R: Fn(u64) -> String>(
        &mut self,
        value: &Option<Expr>,
        unit: &FloatUnit<P, A, R>,
        fuel: u64,
    ) -> (res: Result<Completion, LoxError>)
        requires
            unit.dependable(),
            fuel > 0,
        ensures
            kept(old(self)@.clock, final(self)@.clock),
            forall|now: Readings| #[trigger]
                foretold(final(self)@.clock, now) ==> agrees_flow(
                res,
                final(self)@,
                semantics::return_effect(
                    unit,
now,
                    crate::ast::option_expr_view(*value),
                    old(self)@,
                    fuel as nat,
                ),
            ),
        decreases fuel, 0nat,
    {
        match value {
            Some(e) => match self.visit_expr(e, unit, fuel - 1) {
                Ok(v) => Ok(Completion::Return(v)),
                Err(e) => Err(e),
            },
            None => Ok(Completion::Return(Value::NilValue)),
        }
    }

    fn visit_class_decl_statement(
        &mut self,
        name: &Token,
        methods: &Vec<Rc<FunDeclStatement>>,
        superclass: &Option<Token>,
    ) -> (res: Result<Completion, LoxError>)
        ensures
            agrees_flow(
                res,
                final(self)@,
                semantics::class_effect(
                    name@,
                    decls_view(*methods),
                    crate::ast::option_token_view(*superclass),
                    old(self)@,
                ),
            ),
    {
        let above = match superclass {
            Some(token) => match self.look_up_variable(token) {
                Ok(Value::ClassValue(class)) => Some(class),
                Ok(_) => {
                    return Err(
                        LoxError { kind: LoxErrorKind::TypeError, message: "Superclass must be a class" },
                    );
                },
                Err(e) => {
                    return Err(e);
                },
            },
            None => None,
        };
        let closure = match above {
            Some(class) => {
                let mut environment = Environment::inside(self.environment);
                let name_of_super = "super".to_owned();
                environment.define(&name_of_super, Value::ClassValue(class));
                self.heap.add_environment(environment)
            },
            None => self.environment,
        };
        let mut table: Table<Function> = Table::new();
        let mut i: usize = 0;
        let init = "init".to_owned();
        proof {
            lemma_deep_functions_empty();
        }
        while i < methods.len()
            invariant
                i <= methods.len(),
                init@ == "init"@,
                deep_functions(table@) == semantics::method_table(decls_view(*methods), closure, i as nat),
            decreases methods.len() - i,
        {
            let declaration = share(&methods[i]);
            let is_initializer = declaration.name.lexeme == init;
            let method_name = declaration.name.lexeme.clone();
            let function = Function::new(declaration, closure, is_initializer);
            proof {
                lemma_deep_functions_insert(table@, method_name@, function);
            }
            table.insert(method_name, function);
            i = i + 1;
        }
        let class = LoxClass::new(name.lexeme.clone(), table, above);
        let handle = self.heap.add_class(class);
        match self.define(&name.lexeme, Value::ClassValue(handle)) {
            Ok(()) => Ok(Completion::Normal),
            Err(e) => Err(e),
        }
    }

    /// Evaluates an expression.
    pub fn visit_expr<P: Fn(String) -> Option<u64>, A: Fn(NumberOp, u64, u64) -> u64, R: Fn(u64) -> String>(
        &mut self,
        expr: &Expr,
        unit: &FloatUnit<P, A, R>,
        fuel: u64,
    ) -> (res: Result<Value, LoxError>)
        requires
            unit.dependable(),
        ensures
            kept(old(self)@.clock, final(self)@.clock),
            forall|now: Readings| #[trigger]
                foretold(final(self)@.clock, now) ==> agrees_value(res, final(self)@, semantics::eval(unit, now, expr@, old(self)@, fuel as nat)),
        decreases fuel, 1nat,
    {
        if fuel == 0 {
            return Err(budget_exhausted());
        }
        match expr {
            Expr::Binary { token, operator, left, right } => self.visit_binary(
                *operator,
                left,
                right,
                unit,
                fuel,
            ),
            Expr::Unary { token, operator, right } => self.visit_unary(*operator, right, unit, fuel),
            Expr::Literal { token, value } => self.visit_literal(value),
            Expr::Grouping { expr } => self.visit_expr(expr, unit, fuel - 1),
            Expr::Variable { token } => self.visit_variable(token),
            Expr::Assignment { token, value } => self.visit_assignment(token, value, unit, fuel),
            Expr::Logical { token, operator, left, right } => self.visit_logical(
                *operator,
                left,
                right,
                unit,
                fuel,
            ),
            Expr::Call { callee, arguments, token } => self.visit_call(callee, arguments, unit, fuel),
            Expr::Get { object, name } => self.visit_get(object, name, unit, fuel),
            Expr::SetProperty { object, name, value } => self.visit_set(object, name, value, unit, fuel),
            Expr::This { keyword } => self.visit_this(keyword),
            Expr::Super { keyword, method } => self.visit_super(keyword, method),
        }
    }

    fn visit_binary<P: Fn(String) -> Option<u64>, A: Fn(NumberOp, u64, u64) -> u64, R: Fn(u64) -> String>(
        &mut self,
        operator: BinaryOperator,
        left: &Expr,
        right: &Expr,
        unit: &FloatUnit<P, A, R>,
        fuel: u64,
    ) -> (res: Result<Value, LoxError>)
        requires
            unit.dependable(),
            fuel > 0,
        ensures
            kept(old(self)@.clock, final(self)@.clock),
            forall|now: Readings| #[trigger]
                foretold(final(self)@.clock, now) ==> agrees_value(
                res,
                final(self)@,
                semantics::binary_value(unit, now, operator, left@, right@, old(self)@, fuel as nat),
            ),
        decreases fuel, 0nat,
    {
        let l = match self.visit_expr(left, unit, fuel - 1) {
            Ok(v) => v,
            Err(e) => {
                return Err(e);
            },
        };
        let ghost first = self@.clock;
        let r = match self.visit_expr(right, unit, fuel - 1) {
            Ok(v) => v,
            Err(e) => {
                proof {
                    assert forall|now: Readings| #[trigger] foretold(self@.clock, now) implies agrees_value(
                        Err(e),
                        self@,
                        semantics::binary_value(unit, now, operator, left@, right@, old(self)@, fuel as nat),
                    ) by {
                        lemma_foretold_earlier(first, self@.clock, now);
                    }
                }
                return Err(e);
            },
        };
        let res = apply_binary(unit, operator, l, r);
        proof {
            assert forall|now: Readings| #[trigger] foretold(self@.clock, now) implies agrees_value(
                res,
                self@,
                semantics::binary_value(unit, now, operator, left@, right@, old(self)@, fuel as nat),
            ) by {
                lemma_foretold_earlier(first, self@.clock, now);
            }
        }
        res
    }

    fn visit_unary<P: Fn(String) -> Option<u64>, A: Fn(NumberOp, u64, u64) -> u64, R: Fn(u64) -> String>(
        &mut self,
        operator: UnaryOperator,
        right: &Expr,
        unit: &FloatUnit<P, A, R>,
        fuel: u64,
    ) -> (res: Result<Value, LoxError>)
        requires
            unit.dependable(),
            fuel > 0,
        ensures
            kept(old(self)@.clock, final(self)@.clock),
            forall|now: Readings| #[trigger]
                foretold(final(self)@.clock, now) ==> agrees_value(
                res,
                final(self)@,
                semantics::unary_value(unit, now, operator, right@, old(self)@, fuel as nat),
            ),
        decreases fuel, 0nat,
    {
        match self.visit_expr(right, unit, fuel - 1) {
            Ok(v) => apply_unary(operator, v),
            Err(e) => Err(e),
        }
    }

    fn visit_literal(&self, value: &LiteralValue) -> (res: Result<Value, LoxError>)
        ensures
            value_outcome(res) == Ok::<ValueModel, LoxError>(crate::value::literal_value(value@)),
    {
        Ok(Value::of_literal(value))
    }

    fn visit_variable(&self, token: &Token) -> (res: Result<Value, LoxError>)
        ensures
            value_outcome(res) == self@.look_up(token@),
    {
        self.look_up_variable(token)
    }

    fn visit_assignment<P: Fn(String) -> Option<u64>, A: Fn(NumberOp, u64, u64) -> u64, R: Fn(u64) -> String>(
        &mut self,
        token: &Token,
        value: &Expr,
        unit: &FloatUnit<P, A, R>,
        fuel: u64,
    ) -> (res: Result<Value, LoxError>)
        requires
            unit.dependable(),
            fuel > 0,
        ensures
            kept(old(self)@.clock, final(self)@.clock),
            forall|now: Readings| #[trigger]
                foretold(final(self)@.clock, now) ==> agrees_value(
                res,
                final(self)@,
                semantics::assignment_value(unit, now, token@, value@, old(self)@, fuel as nat),
            ),
        decreases fuel, 0nat,
    {
        let v = match self.visit_expr(value, unit, fuel - 1) {
            Ok(v) => v,
            Err(e) => {
                return Err(e);
            },
        };
        match self.assign_variable(token, v.clone()) {
            Ok(()) => Ok(v),
            Err(e) => Err(e),
        }
    }

    fn visit_logical<P: Fn(String) -> Option<u64>, A: Fn(NumberOp, u64, u64) -> u64, R: Fn(u64) -> String>(
        &mut self,
        operator: LogicalOperator,
        left: &Expr,
        right: &Expr,
        unit: &FloatUnit<P, A, R>,
        fuel: u64,
    ) -> (res: Result<Value, LoxError>)
        requires
            unit.dependable(),
            fuel > 0,
        ensures
            kept(old(self)@.clock, final(self)@.clock),
            forall|now: Readings| #[trigger]
                foretold(final(self)@.clock, now) ==> agrees_value(
                res,
                final(self)@,
                semantics::logical_value(unit, now, operator, left@, right@, old(self)@, fuel as nat),
            ),
        decreases fuel, 0nat,
    {
        let left_value = match self.visit_expr(left, unit, fuel - 1) {
            Ok(v) => v,
            Err(e) => {
                return Err(e);
            },
        };
        let decided = match operator {
            LogicalOperator::And => !left_value.is_truthy(),
            LogicalOperator::Or => left_value.is_truthy(),
        };
        if decided {
            Ok(left_value)
        } else {
            let ghost first = self@.clock;
            let res = self.visit_expr(right, unit, fuel - 1);
            proof {
                assert forall|now: Readings| #[trigger] foretold(self@.clock, now) implies agrees_value(
                    res,
                    self@,
                    semantics::logical_value(unit, now, operator, left@, right@, old(self)@, fuel as nat),
                ) by {
                    lemma_foretold_earlier(first, self@.clock, now);
                }
            }
            res
        }
    }

    /// The values of the arguments of a call, from left to right.
    fn evaluate_arguments<P: Fn(String) -> Option<u64>, A: Fn(NumberOp, u64, u64) -> u64, R: Fn(u64) -> String>(
        &mut self,
        arguments: &Vec<Expr>,
        unit: &FloatUnit<P, A, R>,
        fuel: u64,
    ) -> (res: Result<Vec<Value>, LoxError>)
        requires
            unit.dependable(),
        ensures
            kept(old(self)@.clock, final(self)@.clock),
            forall|now: Readings| #[trigger]
                foretold(final(self)@.clock, now) ==> agrees_values(
                res,
                final(self)@,
                semantics::eval_arguments(
                    unit,
now,
                    exprs_view(*arguments),
                    0,
                    Seq::empty(),
                    old(self)@,
                    fuel as nat,
                ),
            ),
        decreases fuel, 2nat,
    {
        let mut values: Vec<Value> = Vec::new();
        let mut i: usize = 0;
        assert(value_views(values@) =~= Seq::empty());
        while i < arguments.len()
            invariant
                unit.dependable(),
                i <= arguments.len(),
                kept(old(self)@.clock, self@.clock),
                forall|now: Readings| #[trigger]
                    foretold(self@.clock, now) ==> semantics::eval_arguments(
                        unit,
                        now,
                        exprs_view(*arguments),
                        i as nat,
                        value_views(values@),
                        self@,
                        fuel as nat,
                    ) == semantics::eval_arguments(
                        unit,
                        now,
                        exprs_view(*arguments),
                        0,
                        Seq::empty(),
                        old(self)@,
                        fuel as nat,
                    ),
            decreases arguments.len() - i,
        {
            let ghost start = self@.clock;
            let ghost before = values@;
            match self.visit_expr(&arguments[i], unit, fuel) {
                Ok(v) => {
                    values.push(v);
                    proof {
                        assert(value_views(values@) =~= value_views(before).push(v@));
                        assert forall|now: Readings| #[trigger]
                            foretold(self@.clock, now) implies semantics::eval_arguments(
                            unit,
                            now,
                            exprs_view(*arguments),
                            (i + 1) as nat,
                            value_views(values@),
                            self@,
                            fuel as nat,
                        ) == semantics::eval_arguments(
                            unit,
                            now,
                            exprs_view(*arguments),
                            0,
                            Seq::empty(),
                            old(self)@,
                            fuel as nat,
                        ) by {
                            lemma_foretold_earlier(start, self@.clock, now);
                        }
                    }
                },
                Err(e) => {
                    proof {
                        assert forall|now: Readings| #[trigger] foretold(self@.clock, now) implies agrees_values(
                            Err(e),
                            self@,
                            semantics::eval_arguments(
                                unit,
                                now,
                                exprs_view(*arguments),
                                0,
                                Seq::empty(),
                                old(self)@,
                                fuel as nat,
                            ),
                        ) by {
                            lemma_foretold_earlier(start, self@.clock, now);
                        }
                    }
                    return Err(e);
                },
            }
            i = i + 1;
        }
        Ok(values)
    }

    fn visit_call<P: Fn(String) -> Option<u64>, A: Fn(NumberOp, u64, u64) -> u64, R: Fn(u64) -> String>(
        &mut self,
        callee: &Expr,
        arguments: &Vec<Expr>,
        unit: &FloatUnit<P, A, R>,
        fuel: u64,
    ) -> (res: Result<Value, LoxError>)
        requires
            unit.dependable(),
            fuel > 0,
        ensures
            kept(old(self)@.clock, final(self)@.clock),
            forall|now: Readings| #[trigger]
                foretold(final(self)@.clock, now) ==> agrees_value(
                res,
                final(self)@,
                semantics::call_expression(
                    unit,
now,
                    callee@,
                    exprs_view(*arguments),
                    old(self)@,
                    fuel as nat,
                ),
            ),
        decreases fuel, 0nat,
    {
        let target = match self.visit_expr(callee, unit, fuel - 1) {
            Ok(v) => v,
            Err(e) => {
                return Err(e);
            },
        };
        let ghost first = self@.clock;
        let values = match self.evaluate_arguments(arguments, unit, fuel - 1) {
            Ok(values) => values,
            Err(e) => {
                proof {
                    assert forall|now: Readings| #[trigger] foretold(self@.clock, now) implies agrees_value(
                        Err(e),
                        self@,
                        semantics::call_expression(
                            unit,
                            now,
                            callee@,
                            exprs_view(*arguments),
                            old(self)@,
                            fuel as nat,
                        ),
                    ) by {
                        lemma_foretold_earlier(first, self@.clock, now);
                    }
                }
                return Err(e);
            },
        };
        let ghost second = self@.clock;
        let res = self.call_value(target, values, unit, fuel - 1);
        proof {
            assert forall|now: Readings| #[trigger] foretold(self@.clock, now) implies agrees_value(
                res,
                self@,
                semantics::call_expression(unit, now, callee@, exprs_view(*arguments), old(self)@, fuel as nat),
            ) by {
                lemma_foretold_earlier(second, self@.clock, now);
                lemma_foretold_earlier(first, second, now);
            }
        }
        res
    }

    /// Calls a value with arguments.
    pub fn call_value<P: Fn(String) -> Option<u64>, A: Fn(NumberOp, u64, u64) -> u64, R: Fn(u64) -> String>(
        &mut self,
        callee: Value,
        arguments: Vec<Value>,
        unit: &FloatUnit<P, A, R>,
        fuel: u64,
    ) -> (res: Result<Value, LoxError>)
        requires
            unit.dependable(),
        ensures
            kept(old(self)@.clock, final(self)@.clock),
            forall|now: Readings| #[trigger]
                foretold(final(self)@.clock, now) ==> agrees_value(
                res,
                final(self)@,
                semantics::call_value(unit, now, callee@, value_views(arguments@), old(self)@, fuel as nat),
            ),
        decreases fuel, 1nat,
    {
        if fuel == 0 {
            return Err(budget_exhausted());
        }
        let wrong_number = LoxError {
            kind: LoxErrorKind::TypeError,
            message: "Got wrong number of arguments",
        };
        match callee {
            Value::Callable(Callable::Function(function)) => {
                if arguments.len() != function.arity() {
                    Err(wrong_number)
                } else {
                    self.call_function(&function, arguments, unit, fuel - 1)
                }
            },
            Value::Callable(Callable::Clock) => {
                if arguments.len() != 0 {
                    Err(wrong_number)
                } else {
                    let reading = crate::native::unix_seconds();
                    self.clock = Ghost(self.clock@.push(reading));
                    clock_value(reading, unit)
                }
            },
            Value::ClassValue(class) => {
                if class >= self.heap.classes.len() {
                    return Err(LoxError { kind: LoxErrorKind::RuntimeError, message: "no such class" });
                }
                if arguments.len() != self.heap.classes[class].arity() {
                    return Err(wrong_number);
                }
                let init = "init".to_owned();
                let initializer = match self.heap.classes[class].methods.get(&init) {
                    Some(method) => Some(method.clone()),
                    None => None,
                };
                let instance = self.heap.add_instance(class);
                match initializer {
                    Some(method) => {
                        let bound = method.bind(instance, &mut self.heap);
                        match self.call_function(&bound, arguments, unit, fuel - 1) {
                            Ok(_) => Ok(Value::InstanceValue(instance)),
                            Err(e) => Err(e),
                        }
                    },
                    None => Ok(Value::InstanceValue(instance)),
                }
            },
            _ => Err(LoxError { kind: LoxErrorKind::TypeError, message: "expression is not callable" }),
        }
    }

    /// Calls a function, with as many arguments as it has parameters.
    pub fn call_function<P: Fn(String) -> Option<u64>, A: Fn(NumberOp, u64, u64) -> u64, R: Fn(u64) -> String>(
        &mut self,
        function: &Function,
        arguments: Vec<Value>,
        unit: &FloatUnit<P, A, R>,
        fuel: u64,
    ) -> (res: Result<Value, LoxError>)
        requires
            unit.dependable(),
        ensures
            kept(old(self)@.clock, final(self)@.clock),
            forall|now: Readings| #[trigger]
                foretold(final(self)@.clock, now) ==> agrees_value(
                res,
                final(self)@,
                semantics::call_function(
                    unit,
now,
                    function@,
                    value_views(arguments@),
                    old(self)@,
                    fuel as nat,
                ),
            ),
        decreases fuel, 1nat,
    {
        if fuel == 0 {
            return Err(budget_exhausted());
        }
        if arguments.len() != function.arity() {
            return Err(LoxError { kind: LoxErrorKind::TypeError, message: "Got wrong number of arguments" });
        }
        let mut environment = Environment::inside(function.closure);
        let mut i: usize = 0;
        while i < function.declaration.parameters.len()
            invariant
                i <= function.declaration.parameters.len(),
                arguments@.len() == function.declaration.parameters.len(),
                environment@ == (EnvModel {
                    values: semantics::parameter_values(
                        function@.declaration.parameters,
                        value_views(arguments@),
                        i as nat,
                    ),
                    parent: Some(function.closure),
                }),
            decreases function.declaration.parameters.len() - i,
        {
            environment.define(&function.declaration.parameters[i].lexeme, arguments[i].clone());
            i = i + 1;
        }
        let scope = self.heap.add_environment(environment);
        match self.execute_block(&function.declaration.body, scope, unit, fuel - 1) {
            Ok(flow) => {
                if function.is_initializer {
                    let this = "this".to_owned();
                    self.heap.get_at(function.closure, &this, 0)
                } else {
                    match flow {
                        Completion::Normal => Ok(Value::NilValue),
                        Completion::Return(v) => Ok(v),
                    }
                }
            },
            Err(e) => Err(e),
        }
    }

    fn visit_get<P: Fn(String) -> Option<u64>, A: Fn(NumberOp, u64, u64) -> u64, R: Fn(u64) -> String>(
        &mut self,
        object: &Expr,
        name: &Token,
        unit: &FloatUnit<P, A, R>,
        fuel: u64,
    ) -> (res: Result<Value, LoxError>)
        requires
            unit.dependable(),
            fuel > 0,
        ensures
            kept(old(self)@.clock, final(self)@.clock),
            forall|now: Readings| #[trigger]
                foretold(final(self)@.clock, now) ==> agrees_value(
                res,
                final(self)@,
                semantics::get_value(unit, now, object@, name@, old(self)@, fuel as nat),
            ),
        decreases fuel, 0nat,
    {
        match self.visit_expr(object, unit, fuel - 1) {
            Ok(Value::InstanceValue(instance)) => self.heap.read_property(instance, &name.lexeme),
            Ok(_) => Err(
                LoxError { kind: LoxErrorKind::AttributeError, message: "only instances have attributes" },
            ),
            Err(e) => Err(e),
        }
    }

    fn visit_set<P: Fn(String) -> Option<u64>, A: Fn(NumberOp, u64, u64) -> u64, R: Fn(u64) -> String>(
        &mut self,
        object: &Expr,
        name: &Token,
        value: &Expr,
        unit: &FloatUnit<P, A, R>,
        fuel: u64,
    ) -> (res: Result<Value, LoxError>)
        requires
            unit.dependable(),
            fuel > 0,
        ensures
            kept(old(self)@.clock, final(self)@.clock),
            forall|now: Readings| #[trigger]
                foretold(final(self)@.clock, now) ==> agrees_value(
                res,
                final(self)@,
                semantics::set_value(unit, now, object@, name@, value@, old(self)@, fuel as nat),
            ),
        decreases fuel, 0nat,
    {
        match self.visit_expr(object, unit, fuel - 1) {
            Ok(Value::InstanceValue(instance)) => {
                let ghost first = self@.clock;
                let v = match self.visit_expr(value, unit, fuel - 1) {
                    Ok(v) => v,
                    Err(e) => {
                        proof {
                            assert forall|now: Readings| #[trigger] foretold(self@.clock, now) implies agrees_value(
                                Err(e),
                                self@,
                                semantics::set_value(unit, now, object@, name@, value@, old(self)@, fuel as nat),
                            ) by {
                                lemma_foretold_earlier(first, self@.clock, now);
                            }
                        }
                        return Err(e);
                    },
                };
                let res = match self.heap.write_field(instance, &name.lexeme, v.clone()) {
                    Ok(()) => Ok(v),
                    Err(e) => Err(e),
                };
                proof {
                    assert forall|now: Readings| #[trigger] foretold(self@.clock, now) implies agrees_value(
                        res,
                        self@,
                        semantics::set_value(unit, now, object@, name@, value@, old(self)@, fuel as nat),
                    ) by {
                        lemma_foretold_earlier(first, self@.clock, now);
                    }
                }
                res
            },
            Ok(_) => Err(
                LoxError { kind: LoxErrorKind::AttributeError, message: "only instances have attributes" },
            ),
            Err(e) => Err(e),
        }
    }

    fn visit_this(&self, keyword: &Token) -> (res: Result<Value, LoxError>)
        ensures
            value_outcome(res) == self@.look_up(keyword@),
    {
        self.look_up_variable(keyword)
    }

    fn visit_super(&mut self, keyword: &Token, method: &Token) -> (res: Result<Value, LoxError>)
        ensures
            agrees_value(res, final(self)@, semantics::super_method(old(self)@, keyword@, method@)),
    {
        let depth = match self.locals.get(&keyword.id) {
            Some(depth) => *depth,
            None => 0,
        };
        if depth == 0 {
            return Err(LoxError { kind: LoxErrorKind::RuntimeError, message: "'super' is not resolved" });
        }
        let name_of_super = "super".to_owned();
        let class = match self.heap.get_at(self.environment, &name_of_super, depth) {
            Ok(Value::ClassValue(class)) => class,
            Ok(_) => {
                return Err(
                    LoxError { kind: LoxErrorKind::TypeError, message: "expect super to be a class" },
                );
            },
            Err(e) => {
                return Err(e);
            },
        };
        let this = "this".to_owned();
        let instance = match self.heap.get_at(self.environment, &this, depth - 1) {
            Ok(Value::InstanceValue(instance)) => instance,
            Ok(_) => {
                return Err(
                    LoxError { kind: LoxErrorKind::RuntimeError, message: "error calling super method" },
                );
            },
            Err(e) => {
                return Err(e);
            },
        };
        match self.heap.find_method(class, &method.lexeme) {
            Some(found) => Ok(Value::Callable(Callable::Function(found.bind(instance, &mut self.heap)))),
            None => Err(
                LoxError {
                    kind: LoxErrorKind::AttributeError,
                    message: "superclass has no method with that name",
                },
            ),
        }
    }

    /// Runs statements in the scope `env`.  The scope that was current
    /// before is current again afterwards, however the statements end.
    pub fn execute_block<P: Fn(String) -> Option<u64>, A: Fn(NumberOp, u64, u64) -> u64, R: Fn(u64) -> String>(
        &mut self,
        statements: &Vec<Statement>,
        env: usize,
        unit: &FloatUnit<P, A, R>,
        fuel: u64,
    ) -> (res: Result<Completion, LoxError>)
        requires
            unit.dependable(),
        ensures
            kept(old(self)@.clock, final(self)@.clock),
            forall|now: Readings| #[trigger]
                foretold(final(self)@.clock, now) ==> agrees_flow(
                res,
                final(self)@,
                semantics::exec_block(unit, now, stmts_view(*statements), env, old(self)@, fuel as nat),
            ),
        decreases fuel, 2nat,
    {
        let previous_env = self.environment;
        self.environment = env;
        let mut i: usize = 0;
        while i < statements.len()
            invariant
                unit.dependable(),
                i <= statements.len(),
                previous_env == old(self).environment,
                kept(old(self)@.clock, self@.clock),
                forall|now: Readings| #[trigger]
                    foretold(self@.clock, now) ==> semantics::exec_list(
                        unit,
                        now,
                        stmts_view(*statements),
                        i as nat,
                        self@,
                        fuel as nat,
                    ) == semantics::exec_list(
                        unit,
                        now,
                        stmts_view(*statements),
                        0,
                        old(self)@.with_environment(env),
                        fuel as nat,
                    ),
            decreases statements.len() - i,
        {
            let ghost start = self@.clock;
            let step = self.execute(&statements[i], unit, fuel);
            proof {
                assert forall|now: Readings| #[trigger] foretold(self@.clock, now) implies (match step {
                    Ok(Completion::Normal) => semantics::exec_list(
                        unit,
                        now,
                        stmts_view(*statements),
                        (i + 1) as nat,
                        self@,
                        fuel as nat,
                    ) == semantics::exec_list(
                        unit,
                        now,
                        stmts_view(*statements),
                        0,
                        old(self)@.with_environment(env),
                        fuel as nat,
                    ),
                    _ => agrees_flow(
                        step,
                        self@,
                        semantics::exec_list(
                            unit,
                            now,
                            stmts_view(*statements),
                            0,
                            old(self)@.with_environment(env),
                            fuel as nat,
                        ),
                    ),
                }) by {
                    lemma_foretold_earlier(start, self@.clock, now);
                }
            }
            match step {
                Ok(Completion::Normal) => {},
                Ok(Completion::Return(v)) => {
                    self.environment = previous_env;
                    return Ok(Completion::Return(v));
                },
                Err(e) => {
                    self.environment = previous_env;
                    return Err(e);
                },
            }
            i = i + 1;
        }
        self.environment = previous_env;
        Ok(Completion::Normal)
    }
}

pub open spec fn option_branch_view(branch: Option<Box<Statement>>) -> Option<StmtModel> {
    match branch {
        Some(b) => Some((*b)@),
        None => None,
    }
}

pub open spec fn values_outcome(r: Result<Vec<Value>, LoxError>) -> Result<Seq<ValueModel>, LoxError> {
    match r {
        Ok(values) => Ok(value_views(values@)),
        Err(e) => Err(e),
    }
}

pub open spec fn agrees_values(
    res: Result<Vec<Value>, LoxError>,
    state: WalkerModel,
    m: Evaluated<Seq<ValueModel>>,
) -> bool {
    match m.outcome {
        Outcome::Value(values) => values_outcome(res) == Ok::<Seq<ValueModel>, LoxError>(values) && state
            == m.state,
        Outcome::Failure(e) => res == Err::<Vec<Value>, LoxError>(e) && state == m.state,
    }
}

} // verus!
