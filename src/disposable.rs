//! A holder that disposes of a foreign object exactly once, or hands it back
//! undisposed.
use vstd::prelude::*;
use crate::bridge::{Implementation, IntoJsInterface, converted, has_room, valid_cap};
use crate::capability::{Catalog, closure, owner};
use crate::runtime::{Call, LocalImpl, Runtime, Slot, Value, call_effect, fields_of};

verus! {

/// The name of the teardown method of the dispose capability.
pub open spec fn dispose_method() -> Seq<char> {
    "dispose"@
}

/// The teardown method's name as a string.
pub fn dispose_name() -> (r: String)
    ensures
        r@ == dispose_method(),
{
    "dispose".to_owned()
}

/// How many times the log records a dispose of object `obj`.
pub open spec fn dispose_count(log: Seq<Call>, obj: usize) -> nat
    decreases log.len(),
{
    if log.len() == 0 {
        0
    } else {
        dispose_count(log.drop_last(), obj) + if log.last().object == obj && log.last().method@
            == dispose_method() {
            1nat
        } else {
            0nat
        }
    }
}

/// Holds one foreign object with a dispose method. Disposing consumes the
/// wrapper, so teardown happens at most once; taking the object back out
/// also consumes it and leaves disposal to the caller.
#[derive(Debug)]
pub struct DisposableWrapper {
    inner: usize,
}

impl DisposableWrapper {
    /// The wrapped object.
    pub closed spec fn object(&self) -> usize {
        self.inner
    }

    /// Wraps an object that is already an instance of the dispose
    /// capability.
    pub fn from(inner: usize) -> (r: DisposableWrapper)
        ensures
            r.object() == inner,
    {
        DisposableWrapper { inner }
    }

    /// Converts `value` to an instance of capability `cap`, which answers
    /// `dispose`, and wraps the result.
    pub fn new<H: LocalImpl>(value: Implementation<H>, rt: &mut Runtime<H>, cat: &Catalog, cap: usize) -> (r:
        DisposableWrapper)
        requires
            valid_cap(cat, cap),
            closure(cat.caps@, cap as int).contains(dispose_method()),
            has_room(value, *old(rt), *cat, cap),
        ensures
            converted(value, *old(rt), *final(rt), *cat, cap, r.object()),
    {
        let inner = value.to(rt, cat, cap);
        DisposableWrapper { inner }
    }

    /// The wrapped object, without giving it up.
    pub fn get(&self) -> (r: usize)
        ensures
            r == self.object(),
    {
        self.inner
    }

    /// Takes the object back out without disposing of it.
    pub fn into_inner(self) -> (r: usize)
        ensures
            r == self.object(),
    {
        self.inner
    }

    /// Disposes of the wrapped object by invoking its `dispose` method once.
    pub fn dispose<H: LocalImpl>(self, rt: &mut Runtime<H>) -> (r: Option<Value>)
        ensures
            call_effect(*old(rt), *final(rt), self.object(), dispose_method(), Seq::empty(), r),
            r is Some ==> dispose_count(final(rt).log@, self.object()) == dispose_count(
                old(rt).log@,
                self.object(),
            ) + 1,
            r is None ==> final(rt).log == old(rt).log,
            forall|o: usize|
                o != self.object() ==> dispose_count(final(rt).log@, o) == dispose_count(
                    old(rt).log@,
                    o,
                ),
    {
        let name = dispose_name();
        rt.call(self.inner, &name, Vec::new())
    }
}

/// An instance of the dispose capability whose `dispose` does nothing, for
/// wherever one is required.
#[derive(Debug, Clone, Copy)]
pub struct NoOpDispose {
    obj: usize,
}

impl NoOpDispose {
    /// The runtime object that stands for this instance.
    pub closed spec fn object(&self) -> usize {
        self.obj
    }

    /// Creates a runtime object whose only method, `dispose`, is a runtime
    /// function that does nothing.
    pub fn new<H: LocalImpl>(rt: &mut Runtime<H>) -> (r: NoOpDispose)
        requires
            old(rt).objects@.len() < usize::MAX,
        ensures
            r.object() == old(rt).objects@.len(),
            final(rt).objects@.len() == old(rt).objects@.len() + 1,
            final(rt).extends_objects(old(rt)),
            fields_of(final(rt).objects@[r.object() as int]) == Map::<Seq<char>, Slot>::empty().insert(
                dispose_method(),
                Slot::Native,
            ),
            final(rt).pinned == old(rt).pinned,
            final(rt).listeners == old(rt).listeners,
            final(rt).log == old(rt).log,
    {
        let obj = rt.new_object();
        rt.set_field(obj, dispose_name(), Slot::Native);
        NoOpDispose { obj }
    }

    /// This instance as a foreign-backed value, which converts by
    /// relabelling.
    pub fn to_implementation<H>(&self) -> (r: Implementation<H>)
        ensures
            r == Implementation::<H>::ForeignBacked(self.object()),
    {
        Implementation::ForeignBacked(self.obj)
    }
}

/// Wrapping a local implementation of a capability that answers `dispose`
/// and then disposing of the wrapper invokes dispose exactly once: the
/// thunk runs the pinned implementation's `dispose`, whose answer comes
/// back, and the log gains one dispose of the object.
pub proof fn lemma_dispose_once<H: LocalImpl>(
    x: H,
    rt0: Runtime<H>,
    rt1: Runtime<H>,
    rt2: Runtime<H>,
    cat: Catalog,
    cap: usize,
    obj: usize,
    r: Option<Value>,
)
    requires
        valid_cap(&cat, cap),
        closure(cat.caps@, cap as int).contains(dispose_method()),
        converted(Implementation::Local(x), rt0, rt1, cat, cap, obj),
        call_effect(rt1, rt2, obj, dispose_method(), Seq::empty(), r),
    ensures
        r is Some,
        x.answers(owner(cat.caps@, cap as int, dispose_method()) as usize, dispose_method(), Seq::empty(), r->0),
        rt1.slot_at(obj, dispose_method()) == Some(
            Slot::Thunk(
                rt0.pinned@.len() as usize,
                owner(cat.caps@, cap as int, dispose_method()) as usize,
            ),
        ),
        rt1.pinned@[rt0.pinned@.len() as int] == x,
        dispose_count(rt2.log@, obj) == dispose_count(rt0.log@, obj) + 1,
{
    crate::bridge::lemma_bridge_call(x, rt0, rt1, cat, cap, obj, dispose_method(), Seq::empty(), rt2, r);
    crate::bridge::lemma_bridge_complete(x, rt0, rt1, cat, cap, obj, dispose_method());
    assert(rt2.log@.drop_last() == rt1.log@);
}

} // verus!
