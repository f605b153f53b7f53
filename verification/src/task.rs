//! Tasks and their typed parameter slots.
//!
//! A task is a schedulable unit of work: an identifier assigned on
//! submission, a kind (normal or exit), a fixed-arity store of optional typed
//! input values, and the value it produces when invoked. A routing address
//! names the slot of another task that a produced value must be delivered to.
use vstd::prelude::*;

verus! {

/// The declared type of a parameter slot.
#[derive(Clone, Copy, Debug, PartialEq, Eq, Structural)]
pub enum VType {
    Unit,
    Bool,
    Int,
    Str,
}

impl VType {
    /// The printable name of a slot type, for diagnostics.
    pub open spec fn name_spec(self) -> Seq<char> {
        match self {
            VType::Unit => "unit"@,
            VType::Bool => "bool"@,
            VType::Int => "int"@,
            VType::Str => "str"@,
        }
    }

    pub fn name(&self) -> (r: &'static str)
        ensures
            r@ == self.name_spec(),
    {
        match self {
            VType::Unit => "unit",
            VType::Bool => "bool",
            VType::Int => "int",
            VType::Str => "str",
        }
    }
}

/// A dynamically typed value passed between tasks: a tagged union, checked
/// against the destination slot's declared type at the moment of delivery.
#[derive(Clone, Debug, PartialEq)]
pub enum Value {
    Unit,
    Bool(bool),
    Int(i64),
    Str(String),
}

impl Value {
    /// The type tag a value carries.
    pub open spec fn vtype(self) -> VType {
        match self {
            Value::Unit => VType::Unit,
            Value::Bool(_) => VType::Bool,
            Value::Int(_) => VType::Int,
            Value::Str(_) => VType::Str,
        }
    }

    pub fn type_of(&self) -> (t: VType)
        ensures
            t == self.vtype(),
    {
        match self {
            Value::Unit => VType::Unit,
            Value::Bool(_) => VType::Bool,
            Value::Int(_) => VType::Int,
            Value::Str(_) => VType::Str,
        }
    }
}

/// Whether executing a task also stops the worker that ran it.
#[derive(Clone, Copy, Debug, PartialEq, Eq, Structural)]
pub enum Kind {
    Normal,
    Exit,
}

/// A task identifier. `None` means "not yet assigned"; an assigned
/// identifier is never zero and never reused within one pool.
#[derive(Clone, Copy, Debug, PartialEq, Eq)]
pub struct TaskId(pub Option<usize>);

impl TaskId {
    /// An assigned identifier is never zero.
    pub open spec fn wf(self) -> bool {
        match self.0 {
            Option::Some(n) => n != 0,
            Option::None => true,
        }
    }

    pub open spec fn assigned(self) -> bool {
        self.0 is Some
    }

    /// The table key of an assigned identifier.
    pub open spec fn key(self) -> usize {
        match self.0 {
            Option::Some(n) => n,
            Option::None => 0,
        }
    }

    /// The not-yet-assigned identifier.
    pub fn nil() -> (r: TaskId)
        ensures
            r == TaskId(Option::None),
    {
        TaskId(None)
    }
}

/// A routing address: the destination task and the index of the input slot
/// that a produced value must be delivered to.
#[derive(Clone, Copy, Debug, PartialEq, Eq)]
pub struct CondAddr(pub TaskId, pub usize);

impl CondAddr {
    pub fn new(tid: TaskId, pi: usize) -> (r: CondAddr)
        ensures
            r == CondAddr(tid, pi),
    {
        CondAddr(tid, pi)
    }

    pub fn taskid(&self) -> (r: TaskId)
        ensures
            r == self.0,
    {
        self.0
    }

    pub fn pi(&self) -> (r: usize)
        ensures
            r == self.1,
    {
        self.1
    }
}

/// The mathematical model of a parameter-slot store.
pub ghost struct StoreV {
    pub types: Seq<VType>,
    pub vals: Seq<Option<Value>>,
}

impl StoreV {
    /// One optional value per declared slot, each set value of its slot's
    /// declared type.
    pub open spec fn wf(self) -> bool {
        &&& self.vals.len() == self.types.len()
        &&& forall|i: int|
            0 <= i < self.vals.len() ==> (#[trigger] self.vals[i] matches Option::Some(v)
                ==> v.vtype() == self.types[i])
    }

    pub open spec fn arity(self) -> nat {
        self.types.len()
    }

    pub open spec fn is_set(self, i: int) -> bool {
        self.vals[i] is Some
    }

    /// A store is full when every slot holds a value.
    pub open spec fn full(self) -> bool {
        forall|i: int| 0 <= i < self.vals.len() ==> self.is_set(i)
    }

    /// Whether a delivery of `v` to slot `i` is accepted: in range, not yet
    /// set, and of the declared type.
    pub open spec fn accepts(self, i: int, v: Value) -> bool {
        &&& 0 <= i < self.arity()
        &&& !self.is_set(i)
        &&& v.vtype() == self.types[i]
    }

    /// The store after slot `i` is set to `v`.
    pub open spec fn set_slot(self, i: int, v: Value) -> StoreV {
        StoreV { types: self.types, vals: self.vals.update(i, Option::Some(v)) }
    }
}

/// A fixed-arity array of optional typed values ("conditions"), one per
/// declared input of a task. A slot, once set, is never reset.
#[derive(Debug)]
pub struct ParamStore {
    pub types: Vec<VType>,
    pub vals: Vec<Option<Value>>,
}

impl View for ParamStore {
    type V = StoreV;

    open spec fn view(&self) -> StoreV {
        StoreV { types: self.types@, vals: self.vals@ }
    }
}

/// Why a delivery into a slot was refused.
#[derive(Clone, Copy, Debug, PartialEq, Eq, Structural)]
pub enum SlotError {
    OutOfRange,
    AlreadySet,
    TypeMismatch,
}

impl ParamStore {
    /// An empty store with the given slot types declared and every slot
    /// unset.
    pub fn new(types: Vec<VType>) -> (r: ParamStore)
        ensures
            r@.types == types@,
            r@.wf(),
            r@.arity() == types@.len(),
            forall|i: int| 0 <= i < r@.arity() ==> !r@.is_set(i),
    {
        let n = types.len();
        let mut vals: Vec<Option<Value>> = Vec::new();
        while vals.len() < n
            invariant
                vals@.len() <= n,
                forall|i: int| 0 <= i < vals@.len() ==> vals@[i] is None,
            decreases n - vals.len(),
        {
            vals.push(None);
        }
        ParamStore { types, vals }
    }

    pub fn arity(&self) -> (r: usize)
        ensures
            r == self@.arity(),
    {
        self.types.len()
    }

    pub fn is_full(&self) -> (r: bool)
        ensures
            r == self@.full(),
    {
        let mut i: usize = 0;
        while i < self.vals.len()
            invariant
                i <= self.vals@.len(),
                forall|j: int| 0 <= j < i ==> self@.is_set(j),
            decreases self.vals@.len() - i,
        {
            if self.vals[i].is_none() {
                assert(!self@.is_set(i as int));
                return false;
            }
            i += 1;
        }
        true
    }

    /// Stores `v` into slot `i` if the slot is unset and type-compatible, and
    /// reports whether the store is now full. A refused delivery leaves every
    /// slot exactly as it was.
    pub fn set(&mut self, i: usize, v: Value) -> (r: Result<bool, SlotError>)
        requires
            old(self)@.wf(),
        ensures
            final(self)@.wf(),
            final(self)@.types == old(self)@.types,
            r is Err ==> *final(self) == *old(self),
            (r == Err::<bool, SlotError>(SlotError::OutOfRange)) <==> i >= old(self)@.arity(),
            (r == Err::<bool, SlotError>(SlotError::AlreadySet)) <==> (i < old(self)@.arity()
                && old(self)@.is_set(i as int)),
            (r == Err::<bool, SlotError>(SlotError::TypeMismatch)) <==> (i < old(self)@.arity()
                && !old(self)@.is_set(i as int) && v.vtype() != old(self)@.types[i as int]),
            r is Ok <==> old(self)@.accepts(i as int, v),
            r is Ok ==> final(self)@ == old(self)@.set_slot(i as int, v),
            r matches Ok(full) ==> full == final(self)@.full(),
    {
        if i >= self.types.len() {
            return Err(SlotError::OutOfRange);
        }
        if self.vals[i].is_some() {
            return Err(SlotError::AlreadySet);
        }
        let t = v.type_of();
        if t != self.types[i] {
            return Err(SlotError::TypeMismatch);
        }
        self.vals.set(i, Some(v));
        let full = self.is_full();
        Ok(full)
    }
}

/// The mathematical model of a task.
pub ghost struct TaskV {
    pub id: TaskId,
    pub kind: Kind,
    pub params: StoreV,
    pub out: Option<Value>,
}

impl TaskV {
    pub open spec fn wf(self) -> bool {
        self.id.wf() && self.params.wf()
    }
}

/// A schedulable unit of work. Invoking a task consumes it and yields the
/// value recorded in `out`, if any; a task whose store is full is ready to
/// run.
#[derive(Debug)]
pub struct Task {
    pub id: TaskId,
    pub kind: Kind,
    pub params: ParamStore,
    pub out: Option<Value>,
}

impl View for Task {
    type V = TaskV;

    open spec fn view(&self) -> TaskV {
        TaskV { id: self.id, kind: self.kind, params: self.params@, out: self.out }
    }
}

impl Task {
    /// A task not yet submitted: no identifier assigned, `params` the inputs
    /// it still waits for, and `out` the value its invocation will produce.
    pub fn new(kind: Kind, params: ParamStore, out: Option<Value>) -> (r: Task)
        ensures
            r@ == (TaskV { id: TaskId(Option::None), kind, params: params@, out }),
    {
        Task { id: TaskId::nil(), kind, params, out }
    }

    pub fn id(&self) -> (r: TaskId)
        ensures
            r == self@.id,
    {
        self.id
    }

    pub fn kind(&self) -> (r: Kind)
        ensures
            r == self@.kind,
    {
        self.kind
    }

    /// Executes the task exactly once, consuming its ownership, and returns
    /// the produced type-erased value, if any.
    pub fn invoke(self) -> (r: Option<Value>)
        ensures
            r == self@.out,
    {
        self.out
    }
}

/// The mathematical model of a post-run continuation.
pub ghost enum RoutingV {
    NoOp,
    Single(CondAddr),
    FanOut(Seq<(Value, CondAddr)>),
}

/// A post-run continuation, fixed at submission time: where the value a task
/// produces is delivered. A fan-out carries the already-transformed
/// sub-values, each paired with its own independent destination.
#[derive(Debug)]
pub enum Routing {
    NoOp,
    Single(CondAddr),
    FanOut(Vec<(Value, CondAddr)>),
}

impl View for Routing {
    type V = RoutingV;

    open spec fn view(&self) -> RoutingV {
        match self {
            Routing::NoOp => RoutingV::NoOp,
            Routing::Single(a) => RoutingV::Single(*a),
            Routing::FanOut(ps) => RoutingV::FanOut(ps@),
        }
    }
}

impl RoutingV {
    /// The ordered deliveries a continuation performs once its task produced
    /// `out`. A continuation runs only when the invocation produced a value.
    pub open spec fn deliveries(self, out: Option<Value>) -> Seq<(Value, CondAddr)> {
        match out {
            Option::None => Seq::empty(),
            Option::Some(v) => match self {
                RoutingV::NoOp => Seq::empty(),
                RoutingV::Single(a) => seq![(v, a)],
                RoutingV::FanOut(ps) => ps,
            },
        }
    }
}

} // verus!
