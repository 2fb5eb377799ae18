//! A model of the foreign runtime's object heap: objects are lists of named
//! slots, written in order, where a later write of a name hides earlier ones.
use vstd::prelude::*;

verus! {

/// A value passed across the boundary as an argument or a result.
#[derive(Debug, Clone, PartialEq)]
pub enum Value {
    Unit,
    Int(i64),
    UInt(u64),
    Text(String),
    /// A reference to an object of the runtime.
    Object(usize),
}

/// What a named field of a foreign object holds.
#[derive(Debug, Clone, Copy, PartialEq, Eq, Structural)]
pub enum Slot {
    /// A host-callback thunk dispatching to the pinned implementation with
    /// the first index, as an instance of the capability with the second.
    Thunk(usize, usize),
    /// A function provided by the runtime itself, which does nothing.
    Native,
    /// A function provided by the runtime that removes the listener with
    /// this index.
    Unregister(usize),
}

/// One named field of a foreign object.
#[derive(Debug)]
pub struct Field {
    pub name: String,
    pub slot: Slot,
}

/// A foreign object: its fields in the order they were written.
#[derive(Debug)]
pub struct ForeignObject {
    pub fields: Vec<Field>,
}

/// A listener registered with an event source of the runtime.
#[derive(Debug)]
pub struct Listener {
    /// The object that emits the event.
    pub source: usize,
    /// The kind of event listened for.
    pub kind: String,
    /// The object whose `call` method receives the event.
    pub target: usize,
    /// Whether the listener is still registered.
    pub active: bool,
}

impl Value {
    /// A copy of this value.
    pub fn copy(&self) -> (r: Value)
        ensures
            r == *self,
    {
        match self {
            Value::Unit => Value::Unit,
            Value::Int(i) => Value::Int(*i),
            Value::UInt(u) => Value::UInt(*u),
            Value::Text(s) => Value::Text(s.clone()),
            Value::Object(o) => Value::Object(*o),
        }
    }
}

/// A copy of a list of values.
pub fn copy_values(vs: &Vec<Value>) -> (r: Vec<Value>)
    ensures
        r@ == vs@,
{
    let mut r: Vec<Value> = Vec::new();
    let mut i: usize = 0;
    while i < vs.len()
        invariant
            0 <= i <= vs@.len(),
            r@ == vs@.take(i as int),
        decreases vs@.len() - i,
    {
        r.push(vs[i].copy());
        assert(vs@.take(i as int + 1) == vs@.take(i as int).push(vs@[i as int]));
        i = i + 1;
    }
    assert(vs@.take(vs@.len() as int) == vs@);
    r
}

/// A record of one method invocation made through the runtime: which
/// method of which object ran, on what arguments, and what it returned.
#[derive(Debug)]
pub struct Call {
    pub object: usize,
    pub method: String,
    pub args: Vec<Value>,
    pub result: Value,
}

/// A host value that implements methods the runtime can invoke. Each
/// capability it implements may have its own body for a method name.
pub trait LocalImpl: Sized {
    /// `r` is an answer that method `method` of capability `cap` may give
    /// to `args`.
    spec fn answers(&self, cap: usize, method: Seq<char>, args: Seq<Value>, r: Value) -> bool;

    /// Runs method `method` of capability `cap` on `args`.
    fn invoke(&self, cap: usize, method: &String, args: Vec<Value>) -> (r: Value)
        ensures
            self.answers(cap, method@, args@, r),
    ;

    /// Produces an equivalent value that can be pinned while the caller
    /// keeps this one.
    fn duplicate(&self) -> (r: Self)
        ensures
            r == *self,
    ;
}

/// The name-to-slot map that a list of field writes produces.
pub open spec fn field_map(fs: Seq<Field>) -> Map<Seq<char>, Slot>
    decreases fs.len(),
{
    if fs.len() == 0 {
        Map::empty()
    } else {
        field_map(fs.drop_last()).insert(fs.last().name@, fs.last().slot)
    }
}

/// The slot a map holds for `name`, if any.
pub open spec fn slot_of(m: Map<Seq<char>, Slot>, name: Seq<char>) -> Option<Slot> {
    if m.dom().contains(name) {
        Some(m[name])
    } else {
        None
    }
}

/// The name-to-slot map of an object.
pub open spec fn fields_of(o: ForeignObject) -> Map<Seq<char>, Slot> {
    field_map(o.fields@)
}

/// The recorded call `c` is what running its method gives in runtime `rt`:
/// a thunk ran its pinned implementation's method of that name, for the
/// thunk's capability, on the arguments and `c.result` is that method's
/// answer; a runtime function returned `Unit`.
pub open spec fn ran<H: LocalImpl>(rt: Runtime<H>, c: Call) -> bool {
    match rt.slot_at(c.object, c.method@) {
        Some(Slot::Thunk(p, cap)) => p < rt.pinned@.len() && rt.pinned@[p as int].answers(
            cap,
            c.method@,
            c.args@,
            c.result,
        ),
        Some(_) => c.result == Value::Unit,
        None => false,
    }
}

/// The effect of invoking method `name` of object `obj` on `args`, which
/// took the runtime from `before` to `after` and returned `r`: a result
/// exactly when the method can run; for a thunk, the answer of the pinned
/// implementation's method `name`, for the thunk's capability, to `args`;
/// for a runtime function, `Unit`.
/// The call is logged, and the listener deactivated when the slot
/// unregisters one.
pub open spec fn call_effect<H: LocalImpl>(
    before: Runtime<H>,
    after: Runtime<H>,
    obj: usize,
    name: Seq<char>,
    args: Seq<Value>,
    r: Option<Value>,
) -> bool {
    &&& r is Some <==> before.answers(obj, name)
    &&& (before.slot_at(obj, name) == Some(Slot::Native) || before.slot_at(obj, name) matches Some(
        Slot::Unregister(_),
    )) ==> r == Some(Value::Unit)
    &&& forall|p: usize, cap: usize|
        before.slot_at(obj, name) == Some(Slot::Thunk(p, cap)) && p < before.pinned@.len() ==> r is Some
            && #[trigger] before.pinned@[p as int].answers(cap, name, args, r->0)
    &&& after.objects == before.objects
    &&& after.pinned == before.pinned
    &&& r is Some ==> after.log@.len() == before.log@.len() + 1 && after.log@.drop_last()
        == before.log@ && after.log@.last().object == obj && after.log@.last().method@ == name
        && after.log@.last().args@ == args && after.log@.last().result == r->0 && ran(
        before,
        after.log@.last(),
    )
    &&& r is None ==> after.log == before.log
    &&& match before.slot_at(obj, name) {
        Some(Slot::Unregister(l)) => if l < before.listeners@.len() {
            after.listeners@ == before.listeners@.update(
                l as int,
                Listener { active: false, ..before.listeners@[l as int] },
            )
        } else {
            after.listeners == before.listeners
        },
        _ => after.listeners == before.listeners,
    }
}

/// Host implementations pinned for the rest of the process: values can be
/// added and read, never removed or replaced.
pub struct Pinned<H> {
    items: Vec<H>,
}

impl<H> View for Pinned<H> {
    type V = Seq<H>;

    closed spec fn view(&self) -> Seq<H> {
        self.items@
    }
}

impl<H> Pinned<H> {
    /// No value pinned yet.
    pub fn new() -> (r: Pinned<H>)
        ensures
            r@ == Seq::<H>::empty(),
    {
        Pinned { items: Vec::new() }
    }

    /// How many values are pinned.
    pub fn len(&self) -> (r: usize)
        ensures
            r == self@.len(),
    {
        self.items.len()
    }

    /// Pins `x` after the values pinned so far.
    pub fn pin(&mut self, x: H)
        ensures
            final(self)@ == old(self)@.push(x),
    {
        self.items.push(x)
    }

    /// The value pinned at index `i`.
    pub fn get(&self, i: usize) -> (r: &H)
        requires
            i < self@.len(),
        ensures
            *r == self@[i as int],
    {
        &self.items[i]
    }
}

/// The foreign runtime: its objects, the host implementations pinned for the
/// rest of the process, its registered listeners and a log of invocations.
pub struct Runtime<H> {
    pub objects: Vec<ForeignObject>,
    pub pinned: Pinned<H>,
    pub listeners: Vec<Listener>,
    pub log: Vec<Call>,
}

impl<H: LocalImpl> Runtime<H> {
    /// Object `obj` has a method `name` that can run: a thunk whose
    /// implementation is pinned, or a function of the runtime.
    pub open spec fn answers(&self, obj: usize, name: Seq<char>) -> bool {
        match self.slot_at(obj, name) {
            None => false,
            Some(Slot::Thunk(p, _)) => p < self.pinned@.len(),
            Some(_) => true,
        }
    }

    /// The slot field `name` of object `obj` holds, if any.
    pub open spec fn slot_at(&self, obj: usize, name: Seq<char>) -> Option<Slot> {
        if obj < self.objects@.len() {
            slot_of(fields_of(self.objects@[obj as int]), name)
        } else {
            None
        }
    }

    /// The runtime after `other` only added objects: every object of this one
    /// is still there, unchanged.
    pub open spec fn extends_objects(&self, other: &Runtime<H>) -> bool {
        &&& other.objects@.len() <= self.objects@.len()
        &&& forall|k: int| 0 <= k < other.objects@.len() ==> self.objects@[k] == other.objects@[k]
    }

    /// Creates an empty runtime.
    pub fn new() -> (r: Runtime<H>)
        ensures
            r.objects@.len() == 0,
            r.pinned@.len() == 0,
            r.listeners@.len() == 0,
            r.log@.len() == 0,
    {
        Runtime { objects: Vec::new(), pinned: Pinned::new(), listeners: Vec::new(), log: Vec::new() }
    }

    /// Creates an empty object and returns its index.
    pub fn new_object(&mut self) -> (r: usize)
        requires
            old(self).objects@.len() < usize::MAX,
        ensures
            r == old(self).objects@.len(),
            final(self).objects@.len() == r + 1,
            final(self).extends_objects(old(self)),
            fields_of(final(self).objects@[r as int]) == Map::<Seq<char>, Slot>::empty(),
            final(self).pinned == old(self).pinned,
            final(self).listeners == old(self).listeners,
            final(self).log == old(self).log,
    {
        let r = self.objects.len();
        self.objects.push(ForeignObject { fields: Vec::new() });
        r
    }

    /// Sets the field `name` of object `obj` to `slot`.
    pub fn set_field(&mut self, obj: usize, name: String, slot: Slot)
        requires
            obj < old(self).objects@.len(),
        ensures
            final(self).objects@.len() == old(self).objects@.len(),
            forall|k: int|
                0 <= k < old(self).objects@.len() && k != obj ==> final(self).objects@[k]
                    == old(self).objects@[k],
            fields_of(final(self).objects@[obj as int]) == fields_of(
                old(self).objects@[obj as int],
            ).insert(name@, slot),
            final(self).pinned == old(self).pinned,
            final(self).listeners == old(self).listeners,
            final(self).log == old(self).log,
    {
        let ghost before = self.objects@[obj as int].fields@;
        self.objects[obj].fields.push(Field { name, slot });
        assert(self.objects@[obj as int].fields@.drop_last() == before);
    }

    /// Copies every field of object `src` onto object `dst`, in order, so
    /// that fields of `src` win over those of the same name in `dst`.
    pub fn assign(&mut self, dst: usize, src: usize)
        requires
            dst < old(self).objects@.len(),
            src < old(self).objects@.len(),
        ensures
            final(self).objects@.len() == old(self).objects@.len(),
            forall|k: int|
                0 <= k < old(self).objects@.len() && k != dst ==> final(self).objects@[k]
                    == old(self).objects@[k],
            fields_of(final(self).objects@[dst as int]) == fields_of(
                old(self).objects@[dst as int],
            ).union_prefer_right(fields_of(old(self).objects@[src as int])),
            final(self).pinned == old(self).pinned,
            final(self).listeners == old(self).listeners,
            final(self).log == old(self).log,
    {
        let ghost base = fields_of(self.objects@[dst as int]);
        let ghost srcf = self.objects@[src as int].fields@;
        if dst == src {
            assert(base.union_prefer_right(base) =~= base);
            return;
        }
        let n = self.objects[src].fields.len();
        let mut i: usize = 0;
        while i < n
            invariant
                0 <= i <= n,
                n == srcf.len(),
                dst < self.objects@.len(),
                src < self.objects@.len(),
                dst != src,
                self.objects@.len() == old(self).objects@.len(),
                forall|k: int|
                    0 <= k < old(self).objects@.len() && k != dst ==> self.objects@[k]
                        == old(self).objects@[k],
                self.objects@[src as int].fields@ == srcf,
                fields_of(self.objects@[dst as int]) == base.union_prefer_right(
                    field_map(srcf.take(i as int)),
                ),
                self.pinned == old(self).pinned,
                self.listeners == old(self).listeners,
                self.log == old(self).log,
            decreases n - i,
        {
            let name = self.objects[src].fields[i].name.clone();
            let slot = self.objects[src].fields[i].slot;
            let ghost prev = self.objects@[dst as int].fields@;
            self.set_field(dst, name, slot);
            assert(srcf.take(i as int + 1).drop_last() == srcf.take(i as int));
            assert(base.union_prefer_right(field_map(srcf.take(i as int + 1))) =~= base.union_prefer_right(
                field_map(srcf.take(i as int)),
            ).insert(srcf[i as int].name@, srcf[i as int].slot));
            i = i + 1;
        }
        assert(srcf.take(n as int) == srcf);
    }

    /// Looks up the slot that field `name` of object `obj` holds.
    pub fn find_slot(&self, obj: usize, name: &String) -> (r: Option<Slot>)
        requires
            obj < self.objects@.len(),
        ensures
            r == slot_of(fields_of(self.objects@[obj as int]), name@),
    {
        let fs = &self.objects[obj].fields;
        let mut found: Option<Slot> = None;
        let mut i: usize = 0;
        while i < fs.len()
            invariant
                0 <= i <= fs@.len(),
                found == slot_of(field_map(fs@.take(i as int)), name@),
            decreases fs@.len() - i,
        {
            assert(fs@.take(i as int + 1).drop_last() == fs@.take(i as int));
            if fs[i].name == *name {
                found = Some(fs[i].slot);
            }
            i = i + 1;
        }
        assert(fs@.take(fs@.len() as int) == fs@);
        found
    }

    /// Invokes method `name` of object `obj` with `arg`. A thunk dispatches
    /// to its pinned implementation; an unregistering function deactivates
    /// its listener. Each invocation that finds a method is logged.
    pub fn call(&mut self, obj: usize, name: &String, args: Vec<Value>) -> (r: Option<Value>)
        ensures
            call_effect(*old(self), *final(self), obj, name@, args@, r),
    {
        if obj >= self.objects.len() {
            return None;
        }
        let given = copy_values(&args);
        let r = match self.find_slot(obj, name) {
            None => None,
            Some(Slot::Thunk(p, cap)) => {
                if p < self.pinned.len() {
                    Some(self.pinned.get(p).invoke(cap, name, args))
                } else {
                    None
                }
            },
            Some(Slot::Native) => Some(Value::Unit),
            Some(Slot::Unregister(l)) => {
                if l < self.listeners.len() {
                    self.listeners[l].active = false;
                }
                Some(Value::Unit)
            },
        };
        match &r {
            Some(v) => {
                let ghost prev = self.log@;
                self.log.push(Call { object: obj, method: name.clone(), args: given, result: v.copy() });
                assert(self.log@.drop_last() == prev);
            },
            None => {},
        }
        r
    }

    /// Relabels an object as another capability's type: the same object,
    /// with no copy.
    pub fn relabel(&self, obj: usize) -> (r: usize)
        ensures
            r == obj,
    {
        obj
    }
}

} // verus!
