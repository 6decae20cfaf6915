use vstd::prelude::*;
use crate::callable::{Callable, Function, FunctionModel};
use crate::class::{ClassModel, InstanceModel, LoxClass, LoxInstance};
use crate::environment::{EnvModel, Environment};
use crate::error::{LoxError, LoxErrorKind};
use crate::value::{attribute_error, name_error, runtime_error, value_outcome, Value, ValueModel};

verus! {

/// Everything that values refer to by a handle: the environments, classes
/// and instances that the program has made.  A handle is a position in one of
/// the three lists, which only grow.
pub struct Heap {
    pub environments: Vec<Environment>,
    pub classes: Vec<LoxClass>,
    pub instances: Vec<LoxInstance>,
}

/// What a `Heap` stands for.
pub struct HeapModel {
    pub envs: Seq<EnvModel>,
    pub classes: Seq<ClassModel>,
    pub instances: Seq<InstanceModel>,
}

impl View for Heap {
    type V = HeapModel;

    open spec fn view(&self) -> HeapModel {
        HeapModel {
            envs: Seq::new(self.environments@.len(), |i: int| self.environments@[i]@),
            classes: Seq::new(self.classes@.len(), |i: int| self.classes@[i]@),
            instances: Seq::new(self.instances@.len(), |i: int| self.instances@[i]@),
        }
    }
}

/// The scope that lies `depth` scopes around `env`.
pub open spec fn ancestor(envs: Seq<EnvModel>, env: usize, depth: nat) -> Option<usize>
    decreases depth,
{
    if env >= envs.len() {
        None
    } else if depth == 0 {
        Some(env)
    } else {
        match envs[env as int].parent {
            Some(parent) => ancestor(envs, parent, (depth - 1) as nat),
            None => None,
        }
    }
}

/// The method of that name of a class: its own, or else that of the nearest
/// class above it that has one.  A superclass is older than its subclass.
pub open spec fn find_method(classes: Seq<ClassModel>, class: usize, name: Seq<char>) -> Option<
    FunctionModel,
>
    decreases class,
{
    if class >= classes.len() {
        None
    } else if classes[class as int].methods.contains_key(name) {
        Some(classes[class as int].methods[name])
    } else {
        match classes[class as int].superclass {
            Some(above) => if above < class {
                find_method(classes, above, name)
            } else {
                None
            },
            None => None,
        }
    }
}

/// A heap together with what an operation on it gave.
pub struct Made<T> {
    pub heap: HeapModel,
    pub made: T,
}

impl HeapModel {
    /// The heap with one more environment, whose handle is given too.
    pub open spec fn with_environment(self, env: EnvModel) -> Made<usize> {
        Made {
            heap: HeapModel { envs: self.envs.push(env), classes: self.classes, instances: self.instances },
            made: self.envs.len() as usize,
        }
    }

    /// The heap with one more class, whose handle is given too.
    pub open spec fn with_class(self, class: ClassModel) -> Made<usize> {
        Made {
            heap: HeapModel { envs: self.envs, classes: self.classes.push(class), instances: self.instances },
            made: self.classes.len() as usize,
        }
    }

    /// The heap with a new instance of a class, whose handle is given too.
    pub open spec fn with_instance(self, class: usize) -> Made<usize> {
        Made {
            heap: HeapModel {
                envs: self.envs,
                classes: self.classes,
                instances: self.instances.push(InstanceModel { class, fields: Map::empty() }),
            },
            made: self.instances.len() as usize,
        }
    }

    /// Gives a name a value in the scope `env`.
    pub open spec fn define(self, env: usize, name: Seq<char>, value: ValueModel) -> Result<
        HeapModel,
        LoxError,
    > {
        if env < self.envs.len() {
            Ok(
                HeapModel {
                    envs: self.envs.update(env as int, self.envs[env as int].define(name, value)),
                    classes: self.classes,
                    instances: self.instances,
                },
            )
        } else {
            Err(runtime_error("no such scope"))
        }
    }

    /// The value of a name in the scope that lies `depth` scopes around
    /// `env`.  Nothing but that scope is looked at.
    pub open spec fn get_at(self, env: usize, name: Seq<char>, depth: usize) -> Result<
        ValueModel,
        LoxError,
    > {
        match ancestor(self.envs, env, depth as nat) {
            None => Err(runtime_error("no such scope")),
            Some(scope) => if self.envs[scope as int].values.contains_key(name) {
                Ok(self.envs[scope as int].values[name])
            } else {
                Err(name_error("Tried to get a name that is not defined"))
            },
        }
    }

    /// Writes a name in the scope that lies `depth` scopes around `env`.
    pub open spec fn assign_at(self, env: usize, depth: usize, name: Seq<char>, value: ValueModel) -> Result<
        HeapModel,
        LoxError,
    > {
        match ancestor(self.envs, env, depth as nat) {
            None => Err(runtime_error("no such scope")),
            Some(scope) => self.define(scope, name, value),
        }
    }

    /// Writes a name that the scope `env` must hold already.
    pub open spec fn assign(self, env: usize, name: Seq<char>, value: ValueModel) -> Result<
        HeapModel,
        LoxError,
    > {
        if env < self.envs.len() && self.envs[env as int].values.contains_key(name) {
            self.define(env, name, value)
        } else {
            Err(name_error("Tried to assign to a name that is not defined"))
        }
    }

    /// A method bound to an instance: the same function, declared in a new
    /// scope that lies in the method's own and holds `this` alone.
    pub open spec fn bind(self, method: FunctionModel, instance: usize) -> Made<FunctionModel> {
        let scope = self.with_environment(
            EnvModel {
                values: Map::empty().insert("this"@, ValueModel::Instance(instance)),
                parent: Some(method.closure),
            },
        );
        Made {
            heap: scope.heap,
            made: FunctionModel {
                declaration: method.declaration,
                closure: scope.made,
                is_initializer: method.is_initializer,
            },
        }
    }

    /// Reads a property of an instance: a field, or else a method of its
    /// class, bound to the instance.
    pub open spec fn read_property(self, instance: usize, name: Seq<char>) -> Made<
        Result<ValueModel, LoxError>,
    > {
        if instance >= self.instances.len() {
            Made { heap: self, made: Err(runtime_error("no such instance")) }
        } else if self.instances[instance as int].fields.contains_key(name) {
            Made { heap: self, made: Ok(self.instances[instance as int].fields[name]) }
        } else {
            match find_method(self.classes, self.instances[instance as int].class, name) {
                Some(method) => {
                    let bound = self.bind(method, instance);
                    Made { heap: bound.heap, made: Ok(ValueModel::Function(bound.made)) }
                },
                None => Made {
                    heap: self,
                    made: Err(attribute_error("Instance has no attribute with that name")),
                },
            }
        }
    }

    /// Writes a field of an instance.
    pub open spec fn write_field(self, instance: usize, name: Seq<char>, value: ValueModel) -> Result<
        HeapModel,
        LoxError,
    > {
        if instance < self.instances.len() {
            Ok(
                HeapModel {
                    envs: self.envs,
                    classes: self.classes,
                    instances: self.instances.update(
                        instance as int,
                        self.instances[instance as int].set(name, value),
                    ),
                },
            )
        } else {
            Err(runtime_error("no such instance"))
        }
    }
}

pub open spec fn heap_outcome(r: Result<(), LoxError>, heap: HeapModel) -> Result<HeapModel, LoxError> {
    match r {
        Ok(_) => Ok(heap),
        Err(e) => Err(e),
    }
}

impl Heap {
    /// A heap that holds nothing.
    pub fn new() -> (heap: Heap)
        ensures
            heap@ == (HeapModel { envs: Seq::empty(), classes: Seq::empty(), instances: Seq::empty() }),
    {
        let heap = Heap { environments: Vec::new(), classes: Vec::new(), instances: Vec::new() };
        assert(heap@.envs =~= Seq::empty());
        assert(heap@.classes =~= Seq::empty());
        assert(heap@.instances =~= Seq::empty());
        heap
    }

    /// Adds an environment and gives its handle.
    pub fn add_environment(&mut self, environment: Environment) -> (handle: usize)
        ensures
            final(self)@ == old(self)@.with_environment(environment@).heap,
            handle == old(self)@.with_environment(environment@).made,
    {
        let handle = self.environments.len();
        self.environments.push(environment);
        assert(self@.envs =~= old(self)@.envs.push(environment@));
        handle
    }

    /// Adds a class and gives its handle.
    pub fn add_class(&mut self, class: LoxClass) -> (handle: usize)
        ensures
            final(self)@ == old(self)@.with_class(class@).heap,
            handle == old(self)@.with_class(class@).made,
    {
        let handle = self.classes.len();
        self.classes.push(class);
        assert(self@.classes =~= old(self)@.classes.push(class@));
        handle
    }

    /// Adds a new instance of a class and gives its handle.
    pub fn add_instance(&mut self, class: usize) -> (handle: usize)
        ensures
            final(self)@ == old(self)@.with_instance(class).heap,
            handle == old(self)@.with_instance(class).made,
    {
        let handle = self.instances.len();
        let instance = LoxInstance::new(class);
        self.instances.push(instance);
        assert(self@.instances =~= old(self)@.instances.push(instance@));
        handle
    }

    /// The handle of the scope that lies `depth` scopes around `env`.
    pub fn ancestor(&self, env: usize, depth: usize) -> (found: Option<usize>)
        ensures
            found == ancestor(self@.envs, env, depth as nat),
            found matches Some(scope) ==> scope < self.environments@.len(),
    {
        let mut scope = env;
        let mut left = depth;
        loop
            invariant
                ancestor(self@.envs, scope, left as nat) == ancestor(self@.envs, env, depth as nat),
            decreases left,
        {
            if scope >= self.environments.len() {
                return None;
            }
            if left == 0 {
                return Some(scope);
            }
            match self.environments[scope].parent {
                Some(parent) => {
                    scope = parent;
                    left = left - 1;
                },
                None => {
                    return None;
                },
            }
        }
    }

    /// Gives a name a value in the scope `env`.
    pub fn define(&mut self, env: usize, name: &String, value: Value) -> (res: Result<(), LoxError>)
        ensures
            heap_outcome(res, final(self)@) == old(self)@.define(env, name@, value@),
            res is Err ==> final(self)@ == old(self)@,
    {
        if env < self.environments.len() {
            let environment = &mut self.environments[env];
            environment.define(name, value);
            assert(self@.envs =~= old(self)@.envs.update(
                env as int,
                old(self)@.envs[env as int].define(name@, value@),
            ));
            assert(self@.classes =~= old(self)@.classes);
            assert(self@.instances =~= old(self)@.instances);
            Ok(())
        } else {
            Err(LoxError { kind: LoxErrorKind::RuntimeError, message: "no such scope" })
        }
    }

    /// The value of a name in the scope that lies `depth` scopes around `env`.
    pub fn get_at(&self, env: usize, name: &String, depth: usize) -> (res: Result<Value, LoxError>)
        ensures
            value_outcome(res) == self@.get_at(env, name@, depth),
    {
        match self.ancestor(env, depth) {
            None => Err(LoxError { kind: LoxErrorKind::RuntimeError, message: "no such scope" }),
            Some(scope) => match self.environments[scope].get(name) {
                Some(value) => Ok(value),
                None => Err(
                    LoxError {
                        kind: LoxErrorKind::NameError,
                        message: "Tried to get a name that is not defined",
                    },
                ),
            },
        }
    }

    /// Writes a name in the scope that lies `depth` scopes around `env`.
    pub fn assign_at(&mut self, env: usize, depth: usize, name: &String, value: Value) -> (res: Result<
        (),
        LoxError,
    >)
        ensures
            heap_outcome(res, final(self)@) == old(self)@.assign_at(env, depth, name@, value@),
            res is Err ==> final(self)@ == old(self)@,
    {
        match self.ancestor(env, depth) {
            None => Err(LoxError { kind: LoxErrorKind::RuntimeError, message: "no such scope" }),
            Some(scope) => self.define(scope, name, value),
        }
    }

    /// Writes a name that the scope `env` must hold already.
    pub fn assign(&mut self, env: usize, name: &String, value: Value) -> (res: Result<(), LoxError>)
        ensures
            heap_outcome(res, final(self)@) == old(self)@.assign(env, name@, value@),
            res is Err ==> final(self)@ == old(self)@,
    {
        if env < self.environments.len() && self.environments[env].values.contains_key(name) {
            self.define(env, name, value)
        } else {
            Err(
                LoxError {
                    kind: LoxErrorKind::NameError,
                    message: "Tried to assign to a name that is not defined",
                },
            )
        }
    }

    /// The method of that name of a class or of the nearest class above it.
    pub fn find_method(&self, class: usize, name: &String) -> (found: Option<Function>)
        ensures
            match found {
                Some(method) => find_method(self@.classes, class, name@) == Some(method@),
                None => find_method(self@.classes, class, name@) is None,
            },
    {
        let mut current = class;
        loop
            invariant
                find_method(self@.classes, current, name@) == find_method(self@.classes, class, name@),
            decreases current,
        {
            if current >= self.classes.len() {
                return None;
            }
            match self.classes[current].methods.get(name) {
                Some(method) => {
                    return Some(method.clone());
                },
                None => {},
            }
            match self.classes[current].superclass {
                Some(above) => {
                    if above < current {
                        current = above;
                    } else {
                        return None;
                    }
                },
                None => {
                    return None;
                },
            }
        }
    }

    /// Reads a property of an instance: a field, or else a method of its
    /// class, bound to the instance.
    pub fn read_property(&mut self, instance: usize, name: &String) -> (res: Result<Value, LoxError>)
        ensures
            value_outcome(res) == old(self)@.read_property(instance, name@).made,
            final(self)@ == old(self)@.read_property(instance, name@).heap,
    {
        if instance >= self.instances.len() {
            return Err(LoxError { kind: LoxErrorKind::RuntimeError, message: "no such instance" });
        }
        match self.instances[instance].get(name) {
            Some(value) => {
                return Ok(value);
            },
            None => {},
        }
        let class = self.instances[instance].class;
        match self.find_method(class, name) {
            Some(method) => Ok(Value::Callable(Callable::Function(method.bind(instance, self)))),
            None => Err(
                LoxError {
                    kind: LoxErrorKind::AttributeError,
                    message: "Instance has no attribute with that name",
                },
            ),
        }
    }

    /// Writes a field of an instance.
    pub fn write_field(&mut self, instance: usize, name: &String, value: Value) -> (res: Result<
        (),
        LoxError,
    >)
        ensures
            heap_outcome(res, final(self)@) == old(self)@.write_field(instance, name@, value@),
            res is Err ==> final(self)@ == old(self)@,
    {
        if instance < self.instances.len() {
            let target = &mut self.instances[instance];
            target.set(name, value);
            assert(self@.instances =~= old(self)@.instances.update(
                instance as int,
                old(self)@.instances[instance as int].set(name@, value@),
            ));
            assert(self@.envs =~= old(self)@.envs);
            assert(self@.classes =~= old(self)@.classes);
            Ok(())
        } else {
            Err(LoxError { kind: LoxErrorKind::RuntimeError, message: "no such instance" })
        }
    }
}

impl EnvModel {
    /// The value of a name in the scope that lies `depth` scopes around this
    /// one.
    pub open spec fn get_at(self, name: Seq<char>, depth: usize, heap: HeapModel) -> Result<
        ValueModel,
        LoxError,
    > {
        if depth == 0 {
            if self.values.contains_key(name) {
                Ok(self.values[name])
            } else {
                Err(name_error("Tried to get a name that is not defined"))
            }
        } else {
            match self.parent {
                Some(parent) => heap.get_at(parent, name, (depth - 1) as usize),
                None => Err(runtime_error("no such scope")),
            }
        }
    }
}

/// Reading from a scope of the heap by its handle is reading from the scope
/// itself.
pub proof fn get_at_handle_is_get_at_scope(heap: HeapModel, env: usize, name: Seq<char>, depth: usize)
    requires
        env < heap.envs.len(),
    ensures
        heap.get_at(env, name, depth) == heap.envs[env as int].get_at(name, depth, heap),
{
}

impl Environment {
    /// The value of a name in the scope that lies `depth` scopes around this
    /// one, which is a scope of the heap.
    pub fn get_at(&self, name: &String, depth: usize, heap: &Heap) -> (res: Result<Value, LoxError>)
        ensures
            value_outcome(res) == self@.get_at(name@, depth, heap@),
    {
        if depth == 0 {
            match self.get(name) {
                Some(value) => Ok(value),
                None => Err(
                    LoxError {
                        kind: LoxErrorKind::NameError,
                        message: "Tried to get a name that is not defined",
                    },
                ),
            }
        } else {
            match self.parent {
                Some(parent) => heap.get_at(parent, name, depth - 1),
                None => Err(LoxError { kind: LoxErrorKind::RuntimeError, message: "no such scope" }),
            }
        }
    }
}

impl Function {
    /// The method bound to an instance: a new function whose closure is a
    /// new scope that defines `this` and lies in the method's closure.
    pub fn bind(&self, instance: usize, heap: &mut Heap) -> (bound: Function)
        ensures
            bound@ == old(heap)@.bind(self@, instance).made,
            final(heap)@ == old(heap)@.bind(self@, instance).heap,
    {
        let mut environment = Environment::inside(self.closure);
        let this = "this".to_owned();
        environment.define(&this, Value::InstanceValue(instance));
        let closure = heap.add_environment(environment);
        Function::new(crate::callable::share(&self.declaration), closure, self.is_initializer)
    }
}

/// An instance is shared: a field written through one handle is read
/// through every handle of the same instance.
pub proof fn written_field_is_read_back(heap: HeapModel, instance: usize, name: Seq<char>, value: ValueModel)
    requires
        instance < heap.instances.len(),
    ensures
        heap.write_field(instance, name, value) matches Ok(after) && after.read_property(instance, name).made
            == Ok::<ValueModel, LoxError>(value) && after.read_property(instance, name).heap == after,
{
}

/// A bound method is a new function whose closure is a new scope: the scope
/// holds `this`, bound to the instance, and nothing else, and lies in the
/// closure of the method.  All that the heap held stays as it was.
pub proof fn bound_method_closes_over_this(heap: HeapModel, method: FunctionModel, instance: usize)
    requires
        heap.envs.len() < usize::MAX,
    ensures
        ({
            let bound = heap.bind(method, instance);
            &&& bound.made.declaration == method.declaration
            &&& bound.made.is_initializer == method.is_initializer
            &&& bound.made.closure == heap.envs.len()
            &&& bound.heap.envs.len() == heap.envs.len() + 1
            &&& bound.heap.envs.subrange(0, heap.envs.len() as int) == heap.envs
            &&& bound.heap.classes == heap.classes
            &&& bound.heap.instances == heap.instances
            &&& bound.heap.envs[bound.made.closure as int].parent == Some(method.closure)
            &&& bound.heap.get_at(bound.made.closure, "this"@, 0) == Ok::<ValueModel, LoxError>(
                ValueModel::Instance(instance),
            )
            &&& bound.heap.envs[bound.made.closure as int].values.dom() == set!["this"@]
        }),
{
    let bound = heap.bind(method, instance);
    assert(bound.heap.envs.subrange(0, heap.envs.len() as int) =~= heap.envs);
    assert(bound.heap.envs[bound.made.closure as int].values.dom() =~= set!["this"@]);
}

} // verus!
