use vstd::prelude::*;
use crate::ast::{BinaryOperator, ExprModel, FunDeclModel, LogicalOperator, StmtModel, UnaryOperator};
use crate::callable::FunctionModel;
use crate::class::ClassModel;
use crate::environment::EnvModel;
use crate::error::LoxError;
use crate::heap::{find_method, HeapModel};
use crate::number::{FloatUnit, NumberOp};
use crate::tokens::TokenModel;
use crate::value::{
    attribute_error, binary_result, literal_value, runtime_error, truthy, type_error, unary_result,
    ValueModel,
};

verus! {

/// The state of the interpreter: the heap, the handles of the current and of
/// the global scope, the depth that the resolver found for each token that
/// names a local variable, the lines printed so far, and the budget.
pub struct WalkerModel {
    pub heap: HeapModel,
    pub environment: usize,
    pub globals: usize,
    pub locals: Map<u32, usize>,
    pub output: Seq<Seq<char>>,
    /// How deep an evaluation may go.
    pub budget: u64,
    /// What the system clock said each time that `clock` was called.
    pub clock: Seq<Option<u64>>,
}

/// What the system clock will say: for each call of `clock`, counted from
/// the first that the interpreter ever made, the reading that the call gets.
pub type Readings = spec_fn(nat) -> Option<u64>;

impl WalkerModel {
    pub open spec fn with_heap(self, heap: HeapModel) -> WalkerModel {
        WalkerModel { heap, ..self }
    }

    pub open spec fn with_environment(self, environment: usize) -> WalkerModel {
        WalkerModel { environment, ..self }
    }

    pub open spec fn with_locals(self, locals: Map<u32, usize>) -> WalkerModel {
        WalkerModel { locals, ..self }
    }

    pub open spec fn with_reading(self, reading: Option<u64>) -> WalkerModel {
        WalkerModel { clock: self.clock.push(reading), ..self }
    }

    pub open spec fn with_line(self, line: Seq<char>) -> WalkerModel {
        WalkerModel { output: self.output.push(line), ..self }
    }

    /// The state after the resolver found a depth for a token.
    pub open spec fn resolve(self, token: TokenModel, depth: usize) -> WalkerModel {
        WalkerModel { locals: self.locals.insert(token.id, depth), ..self }
    }

    /// The value of a variable: read in the scope that lies as many scopes
    /// around the current one as the resolver found for the token, or in the
    /// global scope if it found none.
    pub open spec fn look_up(self, token: TokenModel) -> Result<ValueModel, LoxError> {
        if self.locals.contains_key(token.id) {
            self.heap.get_at(self.environment, token.lexeme, self.locals[token.id])
        } else {
            self.heap.get_at(self.globals, token.lexeme, 0)
        }
    }

    /// Writes a variable, in the scope that the resolver found for the token
    /// or in the global scope, which must hold the name already.
    pub open spec fn assign(self, token: TokenModel, value: ValueModel) -> Result<WalkerModel, LoxError> {
        let written = if self.locals.contains_key(token.id) {
            self.heap.assign_at(self.environment, self.locals[token.id], token.lexeme, value)
        } else {
            self.heap.assign(self.globals, token.lexeme, value)
        };
        match written {
            Ok(heap) => Ok(self.with_heap(heap)),
            Err(e) => Err(e),
        }
    }

    /// Gives a name a value in the current scope.
    pub open spec fn define(self, name: Seq<char>, value: ValueModel) -> Result<WalkerModel, LoxError> {
        match self.heap.define(self.environment, name, value) {
            Ok(heap) => Ok(self.with_heap(heap)),
            Err(e) => Err(e),
        }
    }
}

/// How a computation ends.
pub enum Outcome<T> {
    Value(T),
    Failure(LoxError),
}

/// The end of a computation and the state that it leaves.
pub struct Evaluated<T> {
    pub outcome: Outcome<T>,
    pub state: WalkerModel,
}

/// How a statement ends: it runs to its end, or it returns a value from the
/// function around it.
pub enum FlowModel {
    Normal,
    Return(ValueModel),
}

pub open spec fn gave<T>(value: T, state: WalkerModel) -> Evaluated<T> {
    Evaluated { outcome: Outcome::Value(value), state }
}

pub open spec fn failed<T>(error: LoxError, state: WalkerModel) -> Evaluated<T> {
    Evaluated { outcome: Outcome::Failure(error), state }
}

pub open spec fn settled<T>(result: Result<T, LoxError>, state: WalkerModel) -> Evaluated<T> {
    match result {
        Ok(value) => gave(value, state),
        Err(error) => failed(error, state),
    }
}

/// The failure of a step of a computation, as the failure of the whole.
pub open spec fn passed<T, U>(inner: Evaluated<T>) -> Evaluated<U> {
    Evaluated {
        outcome: match inner.outcome {
            Outcome::Failure(error) => Outcome::Failure(error),
            Outcome::Value(_) => Outcome::Failure(runtime_error("a step did not fail")),
        },
        state: inner.state,
    }
}

/// The computation went deeper than the budget allows, or a loop ran longer
/// than a loop may.
pub open spec fn exhausted<T>(state: WalkerModel) -> Evaluated<T> {
    failed(runtime_error("evaluation budget exhausted"), state)
}

/// The text that a value prints as.
pub open spec fn render<P: Fn(String) -> Option<u64>, A: Fn(NumberOp, u64, u64) -> u64, R: Fn(u64) -> String>(
    unit: &FloatUnit<P, A, R>,
    heap: HeapModel,
    value: ValueModel,
) -> Seq<char> {
    match value {
        ValueModel::Number(n) => unit.rendered(n),
        ValueModel::Text(s) => s,
        ValueModel::Boolean(b) => if b {
            "true"@
        } else {
            "false"@
        },
        ValueModel::Nil => "nil"@,
        ValueModel::Function(f) => "<fn "@ + f.declaration.name.lexeme + ">"@,
        ValueModel::Clock => "<native fn clock>"@,
        ValueModel::Class(c) => "<class "@ + class_name(heap, c) + ">"@,
        ValueModel::Instance(i) => "<"@ + instance_class_name(heap, i) + " instance>"@,
    }
}

/// The name of a class; the empty text for a handle that names none.
pub open spec fn class_name(heap: HeapModel, class: usize) -> Seq<char> {
    if class < heap.classes.len() {
        heap.classes[class as int].name
    } else {
        Seq::empty()
    }
}

/// The name of the class of an instance.
pub open spec fn instance_class_name(heap: HeapModel, instance: usize) -> Seq<char> {
    if instance < heap.instances.len() {
        class_name(heap, heap.instances[instance as int].class)
    } else {
        Seq::empty()
    }
}

/// The scope of a call after the first `n` parameters got their arguments.
pub open spec fn parameter_values(
    parameters: Seq<TokenModel>,
    arguments: Seq<ValueModel>,
    n: nat,
) -> Map<Seq<char>, ValueModel>
    decreases n,
{
    if n == 0 {
        Map::empty()
    } else {
        parameter_values(parameters, arguments, (n - 1) as nat).insert(
            parameters[n - 1].lexeme,
            arguments[n - 1],
        )
    }
}

/// The function that a method declaration becomes.  The method named `init`
/// is the initializer.
pub open spec fn method_of(declaration: FunDeclModel, closure: usize) -> FunctionModel {
    FunctionModel { declaration, closure, is_initializer: declaration.name.lexeme == "init"@ }
}

/// The methods of a class after its first `n` declarations; a later method
/// takes the place of an earlier one of the same name.
pub open spec fn method_table(methods: Seq<FunDeclModel>, closure: usize, n: nat) -> Map<
    Seq<char>,
    FunctionModel,
>
    decreases n,
{
    if n == 0 {
        Map::empty()
    } else {
        method_table(methods, closure, (n - 1) as nat).insert(
            methods[n - 1].name.lexeme,
            method_of(methods[n - 1], closure),
        )
    }
}

/// Whether `and` or `or` is decided by its left operand.
pub open spec fn decided_by_left(operator: LogicalOperator, left: ValueModel) -> bool {
    match operator {
        LogicalOperator::And => !truthy(left),
        LogicalOperator::Or => truthy(left),
    }
}

/// `super.method`: the method is looked for from the superclass on, which
/// the scope found by the resolver holds as `super`, and bound to the
/// instance that the scope inside it holds as `this`.
pub open spec fn super_method(w: WalkerModel, keyword: TokenModel, method: TokenModel) -> Evaluated<
    ValueModel,
> {
    if !w.locals.contains_key(keyword.id) || w.locals[keyword.id] == 0 {
        failed(runtime_error("'super' is not resolved"), w)
    } else {
        let depth = w.locals[keyword.id];
        match w.heap.get_at(w.environment, "super"@, depth) {
            Err(e) => failed(e, w),
            Ok(ValueModel::Class(class)) => match w.heap.get_at(
                w.environment,
                "this"@,
                (depth - 1) as usize,
            ) {
                Err(e) => failed(e, w),
                Ok(ValueModel::Instance(instance)) => match find_method(
                    w.heap.classes,
                    class,
                    method.lexeme,
                ) {
                    Some(found) => {
                        let bound = w.heap.bind(found, instance);
                        gave(ValueModel::Function(bound.made), w.with_heap(bound.heap))
                    },
                    None => failed(attribute_error("superclass has no method with that name"), w),
                },
                Ok(_) => failed(runtime_error("error calling super method"), w),
            },
            Ok(_) => failed(type_error("expect super to be a class"), w),
        }
    }
}

/// The value of an expression and the state that its evaluation leaves.
/// `fuel` bounds how deep the evaluation may go.
pub open spec fn eval<P: Fn(String) -> Option<u64>, A: Fn(NumberOp, u64, u64) -> u64, R: Fn(u64) -> String>(
    unit: &FloatUnit<P, A, R>,
    now: Readings,
    e: ExprModel,
    w: WalkerModel,
    fuel: nat,
) -> Evaluated<ValueModel>
    decreases fuel, 1nat,
{
    if fuel == 0 {
        exhausted(w)
    } else {
        match e {
            ExprModel::Literal { value, .. } => gave(literal_value(value), w),
            ExprModel::Grouping { expr } => eval(unit, now, *expr, w, (fuel - 1) as nat),
            ExprModel::Variable { token } => settled(w.look_up(token), w),
            ExprModel::This { keyword } => settled(w.look_up(keyword), w),
            ExprModel::Assignment { token, value } => assignment_value(unit, now, token, *value, w, fuel),
            ExprModel::Logical { operator, left, right, .. } => logical_value(
                unit,
                now,
                operator,
                *left,
                *right,
                w,
                fuel,
            ),
            ExprModel::Unary { operator, right, .. } => unary_value(unit, now, operator, *right, w, fuel),
            ExprModel::Binary { operator, left, right, .. } => binary_value(
                unit,
                now,
                operator,
                *left,
                *right,
                w,
                fuel,
            ),
            ExprModel::Call { callee, arguments, .. } => call_expression(unit, now, *callee, arguments, w, fuel),
            ExprModel::Get { object, name } => get_value(unit, now, *object, name, w, fuel),
            ExprModel::SetProperty { object, name, value } => set_value(
                unit,
                now,
                *object,
                name,
                *value,
                w,
                fuel,
            ),
            ExprModel::Super { keyword, method } => super_method(w, keyword, method),
        }
    }
}

/// An assignment gives the value of its right side, after writing it to
/// the variable.
pub open spec fn assignment_value<P: Fn(String) -> Option<u64>, A: Fn(NumberOp, u64, u64) -> u64, R: Fn(u64) -> String>(
    unit: &FloatUnit<P, A, R>,
    now: Readings,
    token: TokenModel,
    value: ExprModel,
    w: WalkerModel,
    fuel: nat,
) -> Evaluated<ValueModel>
    decreases fuel, 0nat,
{
    if fuel == 0 {
        exhausted(w)
    } else {
        let right = eval(unit, now, value, w, (fuel - 1) as nat);
        match right.outcome {
            Outcome::Value(v) => match right.state.assign(token, v) {
                Ok(state) => gave(v, state),
                Err(e) => failed(e, right.state),
            },
            _ => right,
        }
    }
}

/// `and` and `or` give their left operand where it decides, and else their
/// right operand, which is not evaluated otherwise.
pub open spec fn logical_value<P: Fn(String) -> Option<u64>, A: Fn(NumberOp, u64, u64) -> u64, R: Fn(u64) -> String>(
    unit: &FloatUnit<P, A, R>,
    now: Readings,
    operator: LogicalOperator,
    left: ExprModel,
    right: ExprModel,
    w: WalkerModel,
    fuel: nat,
) -> Evaluated<ValueModel>
    decreases fuel, 0nat,
{
    if fuel == 0 {
        exhausted(w)
    } else {
        let first = eval(unit, now, left, w, (fuel - 1) as nat);
        match first.outcome {
            Outcome::Value(v) => if decided_by_left(operator, v) {
                first
            } else {
                eval(unit, now, right, first.state, (fuel - 1) as nat)
            },
            _ => first,
        }
    }
}

/// A unary operator is applied to the value of its operand.
pub open spec fn unary_value<P: Fn(String) -> Option<u64>, A: Fn(NumberOp, u64, u64) -> u64, R: Fn(u64) -> String>(
    unit: &FloatUnit<P, A, R>,
    now: Readings,
    operator: UnaryOperator,
    right: ExprModel,
    w: WalkerModel,
    fuel: nat,
) -> Evaluated<ValueModel>
    decreases fuel, 0nat,
{
    if fuel == 0 {
        exhausted(w)
    } else {
        let operand = eval(unit, now, right, w, (fuel - 1) as nat);
        match operand.outcome {
            Outcome::Value(v) => settled(unary_result(operator, v), operand.state),
            _ => operand,
        }
    }
}

/// A binary operator is applied to the values of its operands, the left one
/// evaluated first.
pub open spec fn binary_value<P: Fn(String) -> Option<u64>, A: Fn(NumberOp, u64, u64) -> u64, R: Fn(u64) -> String>(
    unit: &FloatUnit<P, A, R>,
    now: Readings,
    operator: BinaryOperator,
    left: ExprModel,
    right: ExprModel,
    w: WalkerModel,
    fuel: nat,
) -> Evaluated<ValueModel>
    decreases fuel, 0nat,
{
    if fuel == 0 {
        exhausted(w)
    } else {
        let first = eval(unit, now, left, w, (fuel - 1) as nat);
        match first.outcome {
            Outcome::Value(l) => {
                let second = eval(unit, now, right, first.state, (fuel - 1) as nat);
                match second.outcome {
                    Outcome::Value(r) => settled(binary_result(unit, operator, l, r), second.state),
                    _ => second,
                }
            },
            _ => first,
        }
    }
}

/// A call evaluates the callee, then the arguments from left to right, and
/// calls the one with the others.
pub open spec fn call_expression<P: Fn(String) -> Option<u64>, A: Fn(NumberOp, u64, u64) -> u64, R: Fn(u64) -> String>(
    unit: &FloatUnit<P, A, R>,
    now: Readings,
    callee: ExprModel,
    arguments: Seq<ExprModel>,
    w: WalkerModel,
    fuel: nat,
) -> Evaluated<ValueModel>
    decreases fuel, 0nat,
{
    if fuel == 0 {
        exhausted(w)
    } else {
        let f = (fuel - 1) as nat;
        let target = eval(unit, now, callee, w, f);
        match target.outcome {
            Outcome::Value(c) => {
                let list = eval_arguments(unit, now, arguments, 0, Seq::empty(), target.state, f);
                match list.outcome {
                    Outcome::Value(values) => call_value(unit, now, c, values, list.state, f),
                    _ => passed(list),
                }
            },
            _ => target,
        }
    }
}

/// A property is read from an instance and from nothing else.
pub open spec fn get_value<P: Fn(String) -> Option<u64>, A: Fn(NumberOp, u64, u64) -> u64, R: Fn(u64) -> String>(
    unit: &FloatUnit<P, A, R>,
    now: Readings,
    object: ExprModel,
    name: TokenModel,
    w: WalkerModel,
    fuel: nat,
) -> Evaluated<ValueModel>
    decreases fuel, 0nat,
{
    if fuel == 0 {
        exhausted(w)
    } else {
        let target = eval(unit, now, object, w, (fuel - 1) as nat);
        match target.outcome {
            Outcome::Value(ValueModel::Instance(instance)) => {
                let read = target.state.heap.read_property(instance, name.lexeme);
                settled(read.made, target.state.with_heap(read.heap))
            },
            Outcome::Value(_) => failed(attribute_error("only instances have attributes"), target.state),
            _ => target,
        }
    }
}

/// A field is written on an instance and on nothing else; the value is
/// evaluated after the object, and is what the expression gives.
pub open spec fn set_value<P: Fn(String) -> Option<u64>, A: Fn(NumberOp, u64, u64) -> u64, R: Fn(u64) -> String>(
    unit: &FloatUnit<P, A, R>,
    now: Readings,
    object: ExprModel,
    name: TokenModel,
    value: ExprModel,
    w: WalkerModel,
    fuel: nat,
) -> Evaluated<ValueModel>
    decreases fuel, 0nat,
{
    if fuel == 0 {
        exhausted(w)
    } else {
        let target = eval(unit, now, object, w, (fuel - 1) as nat);
        match target.outcome {
            Outcome::Value(ValueModel::Instance(instance)) => {
                let right = eval(unit, now, value, target.state, (fuel - 1) as nat);
                match right.outcome {
                    Outcome::Value(v) => match right.state.heap.write_field(instance, name.lexeme, v) {
                        Ok(heap) => gave(v, right.state.with_heap(heap)),
                        Err(e) => failed(e, right.state),
                    },
                    _ => right,
                }
            },
            Outcome::Value(_) => failed(attribute_error("only instances have attributes"), target.state),
            _ => target,
        }
    }
}

/// The values of the arguments from the `i`-th on, evaluated from left to
/// right, behind the values `so_far` of those before.
pub open spec fn eval_arguments<P: Fn(String) -> Option<u64>, A: Fn(NumberOp, u64, u64) -> u64, R: Fn(u64) -> String>(
    unit: &FloatUnit<P, A, R>,
    now: Readings,
    arguments: Seq<ExprModel>,
    i: nat,
    so_far: Seq<ValueModel>,
    w: WalkerModel,
    fuel: nat,
) -> Evaluated<Seq<ValueModel>>
    decreases fuel, arguments.len() - i + 2,
{
    if i >= arguments.len() {
        gave(so_far, w)
    } else {
        let next = eval(unit, now, arguments[i as int], w, fuel);
        match next.outcome {
            Outcome::Value(v) => eval_arguments(unit, now, arguments, i + 1, so_far.push(v), next.state, fuel),
            _ => passed(next),
        }
    }
}

/// The call of a value with arguments.  A function takes as many arguments
/// as it has parameters.  A class takes those of its `init` method: it makes
/// an instance, runs `init` on it, if it has one, and gives the instance.
/// `clock` takes none and gives the seconds that the system clock says, as
/// a number; the reading is kept in the state.
pub open spec fn call_value<P: Fn(String) -> Option<u64>, A: Fn(NumberOp, u64, u64) -> u64, R: Fn(u64) -> String>(
    unit: &FloatUnit<P, A, R>,
    now: Readings,
    callee: ValueModel,
    arguments: Seq<ValueModel>,
    w: WalkerModel,
    fuel: nat,
) -> Evaluated<ValueModel>
    decreases fuel, 1nat,
{
    if fuel == 0 {
        exhausted(w)
    } else {
        match callee {
            ValueModel::Function(function) => if arguments.len()
                != function.declaration.parameters.len() {
                failed(type_error("Got wrong number of arguments"), w)
            } else {
                call_function(unit, now, function, arguments, w, (fuel - 1) as nat)
            },
            ValueModel::Clock => if arguments.len() != 0 {
                failed(type_error("Got wrong number of arguments"), w)
            } else {
                settled(
                    crate::native::clock_result(unit, now(w.clock.len())),
                    w.with_reading(now(w.clock.len())),
                )
            },
            ValueModel::Class(class) => if class >= w.heap.classes.len() {
                failed(runtime_error("no such class"), w)
            } else if arguments.len() != w.heap.classes[class as int].arity() {
                failed(type_error("Got wrong number of arguments"), w)
            } else {
                let fresh = w.heap.with_instance(class);
                if w.heap.classes[class as int].methods.contains_key("init"@) {
                    let bound = fresh.heap.bind(w.heap.classes[class as int].methods["init"@], fresh.made);
                    let ran = call_function(
                        unit,
                        now,
                        bound.made,
                        arguments,
                        w.with_heap(bound.heap),
                        (fuel - 1) as nat,
                    );
                    match ran.outcome {
                        Outcome::Value(_) => gave(ValueModel::Instance(fresh.made), ran.state),
                        _ => ran,
                    }
                } else {
                    gave(ValueModel::Instance(fresh.made), w.with_heap(fresh.heap))
                }
            },
            _ => failed(type_error("expression is not callable"), w),
        }
    }
}

/// What a call gives once the body has run: an initializer gives the
/// instance that it is bound to, whatever it returns; any other function
/// gives what it returns, or `nil`.
pub open spec fn call_result(function: FunctionModel, flow: FlowModel, state: WalkerModel) -> Evaluated<
    ValueModel,
> {
    if function.is_initializer {
        settled(state.heap.get_at(function.closure, "this"@, 0), state)
    } else {
        match flow {
            FlowModel::Normal => gave(ValueModel::Nil, state),
            FlowModel::Return(v) => gave(v, state),
        }
    }
}

/// The call of a function with as many arguments as it has parameters: its
/// body runs in a new scope that lies in the function's closure and holds
/// the arguments under the parameters' names.
pub open spec fn call_function<P: Fn(String) -> Option<u64>, A: Fn(NumberOp, u64, u64) -> u64, R: Fn(u64) -> String>(
    unit: &FloatUnit<P, A, R>,
    now: Readings,
    function: FunctionModel,
    arguments: Seq<ValueModel>,
    w: WalkerModel,
    fuel: nat,
) -> Evaluated<ValueModel>
    decreases fuel, 0nat,
{
    if fuel == 0 {
        exhausted(w)
    } else if arguments.len() != function.declaration.parameters.len() {
        failed(type_error("Got wrong number of arguments"), w)
    } else {
        let scope = w.heap.with_environment(
            EnvModel {
                values: parameter_values(
                    function.declaration.parameters,
                    arguments,
                    function.declaration.parameters.len(),
                ),
                parent: Some(function.closure),
            },
        );
        let ran = exec_block(
            unit,
            now,
            function.declaration.body,
            scope.made,
            w.with_heap(scope.heap),
            (fuel - 1) as nat,
        );
        match ran.outcome {
            Outcome::Value(flow) => call_result(function, flow, ran.state),
            _ => passed(ran),
        }
    }
}

/// The state after a class declaration whose superclass, if it has one, has
/// been found: the methods are declared in the current scope, or, under a
/// superclass, in a new scope inside it that holds `super`.
pub open spec fn declare_class(
    w: WalkerModel,
    name: TokenModel,
    methods: Seq<FunDeclModel>,
    superclass: Option<usize>,
) -> Evaluated<FlowModel> {
    let around = match superclass {
        Some(above) => w.heap.with_environment(
            EnvModel {
                values: Map::empty().insert("super"@, ValueModel::Class(above)),
                parent: Some(w.environment),
            },
        ),
        None => crate::heap::Made { heap: w.heap, made: w.environment },
    };
    let class = around.heap.with_class(
        ClassModel {
            name: name.lexeme,
            methods: method_table(methods, around.made, methods.len()),
            superclass,
        },
    );
    match w.with_heap(class.heap).define(name.lexeme, ValueModel::Class(class.made)) {
        Ok(state) => gave(FlowModel::Normal, state),
        Err(e) => failed(e, w.with_heap(class.heap)),
    }
}

/// A class declaration: the superclass, if one is named, must be a class.
pub open spec fn class_effect(
    name: TokenModel,
    methods: Seq<FunDeclModel>,
    superclass: Option<TokenModel>,
    w: WalkerModel,
) -> Evaluated<FlowModel> {
    match superclass {
        Some(token) => match w.look_up(token) {
            Ok(ValueModel::Class(above)) => declare_class(w, name, methods, Some(above)),
            Ok(_) => failed(type_error("Superclass must be a class"), w),
            Err(e) => failed(e, w),
        },
        None => declare_class(w, name, methods, None),
    }
}

/// A function declaration defines the name as a function that closes over
/// the current scope.
pub open spec fn fun_effect(declaration: FunDeclModel, w: WalkerModel) -> Evaluated<FlowModel> {
    match w.define(
        declaration.name.lexeme,
        ValueModel::Function(FunctionModel { declaration, closure: w.environment, is_initializer: false }),
    ) {
        Ok(state) => gave(FlowModel::Normal, state),
        Err(e) => failed(e, w),
    }
}

/// The effect of a statement.
pub open spec fn exec<P: Fn(String) -> Option<u64>, A: Fn(NumberOp, u64, u64) -> u64, R: Fn(u64) -> String>(
    unit: &FloatUnit<P, A, R>,
    now: Readings,
    s: StmtModel,
    w: WalkerModel,
    fuel: nat,
) -> Evaluated<FlowModel>
    decreases fuel, 1nat,
{
    if fuel == 0 {
        exhausted(w)
    } else {
        match s {
            StmtModel::Expression { expression } => expression_effect(unit, now, expression, w, fuel),
            StmtModel::Print { value, .. } => print_effect(unit, now, value, w, fuel),
            StmtModel::VarDecl { token, initializer } => var_effect(unit, now, token, initializer, w, fuel),
            StmtModel::Block { statements } => block_effect(unit, now, statements, w, fuel),
            StmtModel::If { condition, then_branch, else_branch } => if_effect(
                unit,
                now,
                condition,
                *then_branch,
                match else_branch {
                    Some(other) => Some(*other),
                    None => None,
                },
                w,
                fuel,
            ),
            StmtModel::While { condition, body } => exec_while(
                unit,
                now,
                condition,
                *body,
                w,
                (fuel - 1) as nat,
                MAX_ROUNDS as nat,
            ),
            StmtModel::FunDecl { declaration } => fun_effect(declaration, w),
            StmtModel::Return { value, .. } => return_effect(unit, now, value, w, fuel),
            StmtModel::ClassDecl { name, methods, superclass } => class_effect(name, methods, superclass, w),
        }
    }
}

/// An expression statement evaluates the expression and drops its value.
pub open spec fn expression_effect<P: Fn(String) -> Option<u64>, A: Fn(NumberOp, u64, u64) -> u64, R: Fn(u64) -> String>(
    unit: &FloatUnit<P, A, R>,
    now: Readings,
    expression: ExprModel,
    w: WalkerModel,
    fuel: nat,
) -> Evaluated<FlowModel>
    decreases fuel, 0nat,
{
    if fuel == 0 {
        exhausted(w)
    } else {
        let value = eval(unit, now, expression, w, (fuel - 1) as nat);
        match value.outcome {
            Outcome::Value(_) => gave(FlowModel::Normal, value.state),
            _ => passed(value),
        }
    }
}

/// `print` adds the text of a value to the output.
pub open spec fn print_effect<P: Fn(String) -> Option<u64>, A: Fn(NumberOp, u64, u64) -> u64, R: Fn(u64) -> String>(
    unit: &FloatUnit<P, A, R>,
    now: Readings,
    value: ExprModel,
    w: WalkerModel,
    fuel: nat,
) -> Evaluated<FlowModel>
    decreases fuel, 0nat,
{
    if fuel == 0 {
        exhausted(w)
    } else {
        let printed = eval(unit, now, value, w, (fuel - 1) as nat);
        match printed.outcome {
            Outcome::Value(v) => gave(
                FlowModel::Normal,
                printed.state.with_line(render(unit, printed.state.heap, v)),
            ),
            _ => passed(printed),
        }
    }
}

/// `var` defines a name in the current scope, as `nil` where it has no
/// initializer.
pub open spec fn var_effect<P: Fn(String) -> Option<u64>, A: Fn(NumberOp, u64, u64) -> u64, R: Fn(u64) -> String>(
    unit: &FloatUnit<P, A, R>,
    now: Readings,
    token: TokenModel,
    initializer: Option<ExprModel>,
    w: WalkerModel,
    fuel: nat,
) -> Evaluated<FlowModel>
    decreases fuel, 0nat,
{
    if fuel == 0 {
        exhausted(w)
    } else {
        match initializer {
            Some(e) => {
                let value = eval(unit, now, e, w, (fuel - 1) as nat);
                match value.outcome {
                    Outcome::Value(v) => match value.state.define(token.lexeme, v) {
                        Ok(state) => gave(FlowModel::Normal, state),
                        Err(e) => failed(e, value.state),
                    },
                    _ => passed(value),
                }
            },
            None => match w.define(token.lexeme, ValueModel::Nil) {
                Ok(state) => gave(FlowModel::Normal, state),
                Err(e) => failed(e, w),
            },
        }
    }
}

/// A block runs its statements in a new scope inside the current one.
pub open spec fn block_effect<P: Fn(String) -> Option<u64>, A: Fn(NumberOp, u64, u64) -> u64, R: Fn(u64) -> String>(
    unit: &FloatUnit<P, A, R>,
    now: Readings,
    statements: Seq<StmtModel>,
    w: WalkerModel,
    fuel: nat,
) -> Evaluated<FlowModel>
    decreases fuel, 0nat,
{
    if fuel == 0 {
        exhausted(w)
    } else {
        let scope = w.heap.with_environment(EnvModel { values: Map::empty(), parent: Some(w.environment) });
        exec_block(unit, now, statements, scope.made, w.with_heap(scope.heap), (fuel - 1) as nat)
    }
}

/// `if` runs one branch or the other, by the truth of the condition.
pub open spec fn if_effect<P: Fn(String) -> Option<u64>, A: Fn(NumberOp, u64, u64) -> u64, R: Fn(u64) -> String>(
    unit: &FloatUnit<P, A, R>,
    now: Readings,
    condition: ExprModel,
    then_branch: StmtModel,
    else_branch: Option<StmtModel>,
    w: WalkerModel,
    fuel: nat,
) -> Evaluated<FlowModel>
    decreases fuel, 0nat,
{
    if fuel == 0 {
        exhausted(w)
    } else {
        let test = eval(unit, now, condition, w, (fuel - 1) as nat);
        match test.outcome {
            Outcome::Value(v) => if truthy(v) {
                exec(unit, now, then_branch, test.state, (fuel - 1) as nat)
            } else {
                match else_branch {
                    Some(other) => exec(unit, now, other, test.state, (fuel - 1) as nat),
                    None => gave(FlowModel::Normal, test.state),
                }
            },
            _ => passed(test),
        }
    }
}

/// `return` ends the function around it with a value, `nil` where it names
/// none.
pub open spec fn return_effect<P: Fn(String) -> Option<u64>, A: Fn(NumberOp, u64, u64) -> u64, R: Fn(u64) -> String>(
    unit: &FloatUnit<P, A, R>,
    now: Readings,
    value: Option<ExprModel>,
    w: WalkerModel,
    fuel: nat,
) -> Evaluated<FlowModel>
    decreases fuel, 0nat,
{
    if fuel == 0 {
        exhausted(w)
    } else {
        match value {
            Some(e) => {
                let result = eval(unit, now, e, w, (fuel - 1) as nat);
                match result.outcome {
                    Outcome::Value(v) => gave(FlowModel::Return(v), result.state),
                    _ => passed(result),
                }
            },
            None => gave(FlowModel::Return(ValueModel::Nil), w),
        }
    }
}

/// The effect of the statements from the `i`-th on, one after the other, up
/// to the first that fails or returns.
pub open spec fn exec_list<P: Fn(String) -> Option<u64>, A: Fn(NumberOp, u64, u64) -> u64, R: Fn(u64) -> String>(
    unit: &FloatUnit<P, A, R>,
    now: Readings,
    statements: Seq<StmtModel>,
    i: nat,
    w: WalkerModel,
    fuel: nat,
) -> Evaluated<FlowModel>
    decreases fuel, statements.len() - i + 2,
{
    if i >= statements.len() {
        gave(FlowModel::Normal, w)
    } else {
        let next = exec(unit, now, statements[i as int], w, fuel);
        match next.outcome {
            Outcome::Value(FlowModel::Normal) => exec_list(unit, now, statements, i + 1, next.state, fuel),
            _ => next,
        }
    }
}

/// The effect of statements that run in the scope `scope`.  However they
/// end, the scope that was current before is current again afterwards.
pub open spec fn exec_block<P: Fn(String) -> Option<u64>, A: Fn(NumberOp, u64, u64) -> u64, R: Fn(u64) -> String>(
    unit: &FloatUnit<P, A, R>,
    now: Readings,
    statements: Seq<StmtModel>,
    scope: usize,
    w: WalkerModel,
    fuel: nat,
) -> Evaluated<FlowModel>
    decreases fuel, statements.len() + 3,
{
    let ran = exec_list(unit, now, statements, 0, w.with_environment(scope), fuel);
    Evaluated { outcome: ran.outcome, state: ran.state.with_environment(w.environment) }
}

/// How often a loop may run.
pub const MAX_ROUNDS: u64 = u64::MAX;

/// The effect of a loop: the body runs as long as the condition gives a
/// value that counts as true, and at most `rounds` times.
pub open spec fn exec_while<P: Fn(String) -> Option<u64>, A: Fn(NumberOp, u64, u64) -> u64, R: Fn(u64) -> String>(
    unit: &FloatUnit<P, A, R>,
    now: Readings,
    condition: ExprModel,
    body: StmtModel,
    w: WalkerModel,
    fuel: nat,
    rounds: nat,
) -> Evaluated<FlowModel>
    decreases fuel, rounds + 2,
{
    if rounds == 0 {
        exhausted(w)
    } else {
        let test = eval(unit, now, condition, w, fuel);
        match test.outcome {
            Outcome::Value(v) => if !truthy(v) {
                gave(FlowModel::Normal, test.state)
            } else {
                let round = exec(unit, now, body, test.state, fuel);
                match round.outcome {
                    Outcome::Value(FlowModel::Normal) => exec_while(
                        unit,
                        now,
                        condition,
                        body,
                        round.state,
                        fuel,
                        (rounds - 1) as nat,
                    ),
                    _ => round,
                }
            },
            _ => passed(test),
        }
    }
}

/// A variable for which the resolver found a depth is read in the scope
/// that lies that many scopes around the current one, and nowhere else: the
/// value is the one that the name has there, and a name that this scope lacks
/// is an error whatever the scopes around it hold.
pub proof fn variable_is_read_at_its_depth<P: Fn(String) -> Option<u64>, A: Fn(NumberOp, u64, u64) -> u64, R: Fn(u64) -> String>(
    unit: &FloatUnit<P, A, R>,
    now: Readings,
    token: TokenModel,
    w: WalkerModel,
    fuel: nat,
)
    requires
        fuel > 0,
        w.locals.contains_key(token.id),
    ensures
        eval(unit, now, ExprModel::Variable { token }, w, fuel).state == w,
        match crate::heap::ancestor(w.heap.envs, w.environment, w.locals[token.id] as nat) {
            Some(scope) => scope < w.heap.envs.len() && eval(
                unit,
                now,
                ExprModel::Variable { token },
                w,
                fuel,
            ).outcome == (if w.heap.envs[scope as int].values.contains_key(token.lexeme) {
                Outcome::Value(w.heap.envs[scope as int].values[token.lexeme])
            } else {
                Outcome::Failure(crate::value::name_error("Tried to get a name that is not defined"))
            }),
            None => eval(unit, now, ExprModel::Variable { token }, w, fuel).outcome is Failure,
        },
{
    lemma_ancestor_is_a_scope(w.heap.envs, w.environment, w.locals[token.id] as nat);
}

/// The scope that lies some scopes around another is one of the heap.
pub proof fn lemma_ancestor_is_a_scope(envs: Seq<EnvModel>, env: usize, depth: nat)
    ensures
        crate::heap::ancestor(envs, env, depth) matches Some(scope) ==> scope < envs.len(),
    decreases depth,
{
    if env < envs.len() && depth > 0 {
        match envs[env as int].parent {
            Some(parent) => lemma_ancestor_is_a_scope(envs, parent, (depth - 1) as nat),
            None => {},
        }
    }
}

/// `and` and `or` do not touch their right operand where the left one
/// decides: the result and the state are those of the left operand alone.
pub proof fn decided_logical_skips_right_operand<P: Fn(String) -> Option<u64>, A: Fn(NumberOp, u64, u64) -> u64, R: Fn(u64) -> String>(
    unit: &FloatUnit<P, A, R>,
    now: Readings,
    token: TokenModel,
    operator: LogicalOperator,
    left: ExprModel,
    right: ExprModel,
    w: WalkerModel,
    fuel: nat,
)
    requires
        fuel >= 2,
        eval(unit, now, left, w, (fuel - 1) as nat).outcome matches Outcome::Value(v) && decided_by_left(
            operator,
            v,
        ),
    ensures
        eval(
            unit,
            now,
            ExprModel::Logical { token, operator, left: Box::new(left), right: Box::new(right) },
            w,
            fuel,
        ) == eval(unit, now, left, w, (fuel - 1) as nat),
{
    assert(eval(
        unit,
        now,
        ExprModel::Logical { token, operator, left: Box::new(left), right: Box::new(right) },
        w,
        fuel,
    ) == logical_value(unit, now, operator, left, right, w, fuel));
}

/// `false and e` is `false` and `true or e` is `true`, whatever `e` is, and
/// the state stays as it was: nothing that `e` would do is done.
pub proof fn false_and_true_or_skip_right_operand<P: Fn(String) -> Option<u64>, A: Fn(NumberOp, u64, u64) -> u64, R: Fn(u64) -> String>(
    unit: &FloatUnit<P, A, R>,
    now: Readings,
    token: TokenModel,
    literal: TokenModel,
    right: ExprModel,
    w: WalkerModel,
    fuel: nat,
)
    requires
        fuel >= 2,
    ensures
        eval(
            unit,
            now,
            ExprModel::Logical {
                token,
                operator: LogicalOperator::And,
                left: Box::new(
                    ExprModel::Literal { token: literal, value: crate::tokens::LiteralModel::Boolean(false) },
                ),
                right: Box::new(right),
            },
            w,
            fuel,
        ) == gave(ValueModel::Boolean(false), w),
        eval(
            unit,
            now,
            ExprModel::Logical {
                token,
                operator: LogicalOperator::Or,
                left: Box::new(
                    ExprModel::Literal { token: literal, value: crate::tokens::LiteralModel::Boolean(true) },
                ),
                right: Box::new(right),
            },
            w,
            fuel,
        ) == gave(ValueModel::Boolean(true), w),
{
    let no = ExprModel::Literal { token: literal, value: crate::tokens::LiteralModel::Boolean(false) };
    let yes = ExprModel::Literal { token: literal, value: crate::tokens::LiteralModel::Boolean(true) };
    assert(eval(unit, now, no, w, (fuel - 1) as nat) == gave(ValueModel::Boolean(false), w));
    assert(eval(unit, now, yes, w, (fuel - 1) as nat) == gave(ValueModel::Boolean(true), w));
    decided_logical_skips_right_operand(unit, now, token, LogicalOperator::And, no, right, w, fuel);
    decided_logical_skips_right_operand(unit, now, token, LogicalOperator::Or, yes, right, w, fuel);
}

/// A function of one parameter whose body returns that parameter.
pub open spec fn is_identity(function: FunctionModel) -> bool {
    &&& !function.is_initializer
    &&& function.declaration.parameters.len() == 1
    &&& function.declaration.body.len() == 1
    &&& function.declaration.body[0] matches StmtModel::Return {
        value: Some(ExprModel::Variable { token }),
        ..
    } && token.lexeme == function.declaration.parameters[0].lexeme
}

/// The token that names the parameter in the body of such a function.
pub open spec fn returned_token(function: FunctionModel) -> TokenModel {
    match function.declaration.body[0] {
        StmtModel::Return { value: Some(ExprModel::Variable { token }), .. } => token,
        _ => function.declaration.name,
    }
}

/// A function of one parameter that returns its parameter gives exactly the
/// value that it is called with, where the resolver found the parameter in
/// the scope of the call (depth 0).  The call leaves one more scope on the
/// heap and changes nothing else.
pub proof fn identity_returns_its_argument<P: Fn(String) -> Option<u64>, A: Fn(NumberOp, u64, u64) -> u64, R: Fn(u64) -> String>(
    unit: &FloatUnit<P, A, R>,
    now: Readings,
    function: FunctionModel,
    v: ValueModel,
    w: WalkerModel,
    fuel: nat,
)
    requires
        is_identity(function),
        w.locals.contains_key(returned_token(function).id),
        w.locals[returned_token(function).id] == 0,
        w.heap.envs.len() < usize::MAX,
        fuel >= 4,
    ensures
        call_value(unit, now, ValueModel::Function(function), seq![v], w, fuel).outcome == Outcome::Value(v),
        call_value(unit, now, ValueModel::Function(function), seq![v], w, fuel).state == w.with_heap(
            w.heap.with_environment(
                EnvModel {
                    values: Map::empty().insert(function.declaration.parameters[0].lexeme, v),
                    parent: Some(function.closure),
                },
            ).heap,
        ),
{
    let parameters = function.declaration.parameters;
    let arguments = seq![v];
    let body = function.declaration.body;
    let token = returned_token(function);
    let values = parameter_values(parameters, arguments, 1);
    assert(values == Map::<Seq<char>, ValueModel>::empty().insert(parameters[0].lexeme, v)) by {
        reveal_with_fuel(parameter_values, 2);
    }
    let scope = w.heap.with_environment(EnvModel { values, parent: Some(function.closure) });
    let inside = w.with_heap(scope.heap).with_environment(scope.made);
    assert(scope.made == w.heap.envs.len());
    assert(crate::heap::ancestor(inside.heap.envs, inside.environment, 0) == Some(inside.environment));
    assert(inside.look_up(token) == Ok::<ValueModel, LoxError>(v));
    let f3 = (fuel - 3) as nat;
    assert(eval(unit, now, ExprModel::Variable { token }, inside, f3) == gave(v, inside));
    let f2 = (fuel - 2) as nat;
    assert(return_effect(unit, now, Some(ExprModel::Variable { token }), inside, f2) == gave(
        FlowModel::Return(v),
        inside,
    ));
    assert(exec(unit, now, body[0], inside, f2) == gave(FlowModel::Return(v), inside));
    assert(exec_list(unit, now, body, 0, inside, f2) == gave(FlowModel::Return(v), inside));
    assert(exec_block(unit, now, body, scope.made, w.with_heap(scope.heap), f2) == gave(
        FlowModel::Return(v),
        w.with_heap(scope.heap),
    ));
    let f1 = (fuel - 1) as nat;
    assert(call_function(unit, now, function, arguments, w, f1) == gave(v, w.with_heap(scope.heap)));
}

/// However the statements of a block end, the scope that was current
/// before the block is current after it.
pub proof fn block_restores_the_scope<P: Fn(String) -> Option<u64>, A: Fn(NumberOp, u64, u64) -> u64, R: Fn(u64) -> String>(
    unit: &FloatUnit<P, A, R>,
    now: Readings,
    statements: Seq<StmtModel>,
    scope: usize,
    w: WalkerModel,
    fuel: nat,
)
    ensures
        exec_block(unit, now, statements, scope, w, fuel).state.environment == w.environment,
{
}

/// The methods of a class that has a superclass are declared in a scope of
/// their own, which holds `super`, bound to the superclass, and lies in the
/// scope of the class declaration.
pub proof fn methods_of_a_subclass_close_over_super(
    w: WalkerModel,
    name: TokenModel,
    methods: Seq<FunDeclModel>,
    above: usize,
    method: Seq<char>,
)
    requires
        w.heap.envs.len() < usize::MAX,
        w.heap.classes.len() < usize::MAX,
        w.environment < w.heap.envs.len(),
        method_table(methods, w.heap.envs.len() as usize, methods.len()).contains_key(method),
    ensures
        ({
            let after = declare_class(w, name, methods, Some(above)).state;
            let class = w.heap.classes.len() as int;
            let scope = w.heap.envs.len() as usize;
            &&& declare_class(w, name, methods, Some(above)).outcome == Outcome::Value(FlowModel::Normal)
            &&& after.environment == w.environment
            &&& after.heap.classes.len() == class + 1
            &&& after.heap.classes[class].superclass == Some(above)
            &&& after.heap.classes[class].methods.contains_key(method)
            &&& after.heap.classes[class].methods[method].closure == scope
            &&& after.heap.envs[scope as int].parent == Some(w.environment)
            &&& after.heap.get_at(scope, "super"@, 0) == Ok::<ValueModel, LoxError>(ValueModel::Class(above))
            &&& after.heap.get_at(w.environment, name.lexeme, 0) == Ok::<ValueModel, LoxError>(
                ValueModel::Class(class as usize),
            )
        }),
{
    lemma_methods_share_their_closure(methods, w.heap.envs.len() as usize, methods.len(), method);
}

/// Every method of a class has the closure that the class was declared with.
pub proof fn lemma_methods_share_their_closure(
    methods: Seq<FunDeclModel>,
    closure: usize,
    n: nat,
    method: Seq<char>,
)
    requires
        method_table(methods, closure, n).contains_key(method),
    ensures
        method_table(methods, closure, n)[method].closure == closure,
    decreases n,
{
    if n > 0 && methods[n - 1].name.lexeme != method {
        lemma_methods_share_their_closure(methods, closure, (n - 1) as nat, method);
    }
}

/// `!e` evaluates to `true` where `e` evaluates to `false` or to `nil`, and
/// to `false` where `e` evaluates to any other value; the state is the one
/// that the evaluation of `e` leaves.
pub proof fn not_evaluates_to_true_of_false_and_nil_alone<P: Fn(String) -> Option<u64>, A: Fn(NumberOp, u64, u64) -> u64, R: Fn(u64) -> String>(
    unit: &FloatUnit<P, A, R>,
    now: Readings,
    token: TokenModel,
    e: ExprModel,
    w: WalkerModel,
    fuel: nat,
)
    requires
        fuel >= 2,
        eval(unit, now, e, w, (fuel - 1) as nat).outcome is Value,
    ensures
        ({
            let operand = eval(unit, now, e, w, (fuel - 1) as nat);
            let x = operand.outcome->Value_0;
            eval(
                unit,
                now,
                ExprModel::Unary { token, operator: UnaryOperator::Bang, right: Box::new(e) },
                w,
                fuel,
            ) == gave(
                ValueModel::Boolean(x == ValueModel::Boolean(false) || x == ValueModel::Nil),
                operand.state,
            )
        }),
{
    assert(eval(
        unit,
        now,
        ExprModel::Unary { token, operator: UnaryOperator::Bang, right: Box::new(e) },
        w,
        fuel,
    ) == unary_value(unit, now, UnaryOperator::Bang, e, w, fuel));
}

} // verus!
