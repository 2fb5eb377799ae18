//! Building bridge objects for host implementations, composing them along
//! capability hierarchies, and choosing between relabelling a foreign-backed
//! value and building a new bridge.
use vstd::prelude::*;
use crate::capability::{
    Capability, Catalog, bridge_size, closure, inherited, inherited_owner, inherited_size,
    names_upto, owner,
};
use crate::runtime::{LocalImpl, Runtime, Slot, Value, call_effect, fields_of};

verus! {

/// The field map of a bridge: exactly the names in `names`, each a thunk for
/// the implementation pinned at `pin`, as an instance of capability
/// `owner_of(n)`.
pub open spec fn bridges(
    m: Map<Seq<char>, Slot>,
    names: Set<Seq<char>>,
    pin: usize,
    owner_of: spec_fn(Seq<char>) -> int,
) -> bool {
    &&& m.dom() == names
    &&& forall|n: Seq<char>| m.dom().contains(n) ==> m[n] == Slot::Thunk(pin, owner_of(n) as usize)
}

/// The field map of the bridge of capability `cap` for the implementation
/// pinned at `pin`: every method of `cap` and its ancestors, each a thunk
/// for the capability that owns it.
pub open spec fn bridge_of(m: Map<Seq<char>, Slot>, caps: Seq<Capability>, cap: usize, pin: usize) -> bool {
    bridges(m, closure(caps, cap as int), pin, |n: Seq<char>| owner(caps, cap as int, n))
}

/// Capability `cap` is declared in a well-formed catalog.
pub open spec fn valid_cap(cat: &Catalog, cap: usize) -> bool {
    cat.wf() && cap < cat.caps@.len()
}

proof fn lemma_inherited_size_mono(caps: Seq<Capability>, i: int, k1: int, k2: int)
    requires
        k1 <= k2,
        0 <= i < caps.len(),
        k2 <= caps[i].parents@.len(),
    ensures
        inherited_size(caps, i, k1) <= inherited_size(caps, i, k2),
    decreases k2 - k1,
{
    if k1 < k2 {
        lemma_inherited_size_mono(caps, i, k1, k2 - 1);
    }
}

/// Builds the bridge object for capability `cap` of the implementation
/// pinned at `pin`: the bridges of the parents are built first and merged,
/// in declared order, into a fresh object, and the capability's own methods
/// are set on top.
pub fn build_bridge<H: LocalImpl>(rt: &mut Runtime<H>, cat: &Catalog, cap: usize, pin: usize) -> (r:
    usize)
    requires
        valid_cap(cat, cap),
        old(rt).objects@.len() + bridge_size(cat.caps@, cap as int) <= usize::MAX,
    ensures
        r == old(rt).objects@.len(),
        final(rt).objects@.len() == old(rt).objects@.len() + bridge_size(cat.caps@, cap as int),
        r < final(rt).objects@.len(),
        final(rt).extends_objects(old(rt)),
        bridge_of(fields_of(final(rt).objects@[r as int]), cat.caps@, cap, pin),
        final(rt).pinned == old(rt).pinned,
        final(rt).listeners == old(rt).listeners,
        final(rt).log == old(rt).log,
    decreases cap,
{
    let base = rt.new_object();
    let c: &Capability = &cat.caps[cap];
    let np = c.parents.len();
    let mut k: usize = 0;
    while k < np
        invariant
            valid_cap(cat, cap),
            c == &cat.caps@[cap as int],
            np == c.parents@.len(),
            0 <= k <= np,
            base == old(rt).objects@.len(),
            base < rt.objects@.len(),
            old(rt).objects@.len() + bridge_size(cat.caps@, cap as int) <= usize::MAX,
            rt.objects@.len() == base + 1 + inherited_size(cat.caps@, cap as int, k as int),
            rt.extends_objects(old(rt)),
            bridges(
                fields_of(rt.objects@[base as int]),
                inherited(cat.caps@, cap as int, k as int),
                pin,
                |n: Seq<char>| inherited_owner(cat.caps@, cap as int, k as int, n),
            ),
            rt.pinned == old(rt).pinned,
            rt.listeners == old(rt).listeners,
            rt.log == old(rt).log,
        decreases np - k,
    {
        let p = c.parents[k];
        assert(p < cap);
        assert(inherited_size(cat.caps@, cap as int, k as int + 1) <= inherited_size(
            cat.caps@,
            cap as int,
            np as int,
        )) by {
            lemma_inherited_size_mono(cat.caps@, cap as int, k as int + 1, np as int);
        }
        let po = build_bridge(rt, cat, p, pin);
        rt.assign(base, po);
        let ghost merged = fields_of(rt.objects@[base as int]);
        assert(merged.dom() =~= inherited(cat.caps@, cap as int, k as int + 1));
        assert forall|n: Seq<char>| merged.dom().contains(n) implies merged[n] == Slot::Thunk(
            pin,
            inherited_owner(cat.caps@, cap as int, k as int + 1, n) as usize,
        ) by {
            if closure(cat.caps@, p as int).contains(n) {
                assert(fields_of(rt.objects@[po as int]).dom().contains(n));
            }
        }
        k = k + 1;
    }
    assert(inherited(cat.caps@, cap as int, np as int) + names_upto(c.methods@, 0) =~= inherited(
        cat.caps@,
        cap as int,
        np as int,
    ));
    let nm = c.methods.len();
    let mut j: usize = 0;
    while j < nm
        invariant
            valid_cap(cat, cap),
            c == &cat.caps@[cap as int],
            np == c.parents@.len(),
            nm == c.methods@.len(),
            0 <= j <= nm,
            base == old(rt).objects@.len(),
            base < rt.objects@.len(),
            rt.objects@.len() == old(rt).objects@.len() + bridge_size(cat.caps@, cap as int),
            rt.extends_objects(old(rt)),
            bridges(
                fields_of(rt.objects@[base as int]),
                inherited(cat.caps@, cap as int, np as int) + names_upto(c.methods@, j as int),
                pin,
                |n: Seq<char>|
                    if names_upto(c.methods@, j as int).contains(n) {
                        cap as int
                    } else {
                        inherited_owner(cat.caps@, cap as int, np as int, n)
                    },
            ),
            rt.pinned == old(rt).pinned,
            rt.listeners == old(rt).listeners,
            rt.log == old(rt).log,
        decreases nm - j,
    {
        let name = c.methods[j].clone();
        rt.set_field(base, name, Slot::Thunk(pin, cap));
        assert(fields_of(rt.objects@[base as int]).dom() =~= inherited(
            cat.caps@,
            cap as int,
            np as int,
        ) + names_upto(c.methods@, j as int + 1));
        j = j + 1;
    }
    proof {
        let m = fields_of(rt.objects@[base as int]);
        assert(m.dom() =~= closure(cat.caps@, cap as int));
        assert forall|n: Seq<char>| m.dom().contains(n) implies m[n] == Slot::Thunk(
            pin,
            owner(cat.caps@, cap as int, n) as usize,
        ) by {}
    }
    base
}

/// A value to hand to the foreign runtime as an instance of a capability.
pub enum Implementation<H> {
    /// Already backed by the foreign object with this index, which its
    /// producer declared to satisfy the capability.
    ForeignBacked(usize),
    /// Implemented on the host side; it is pinned and bridged when
    /// converted.
    Local(H),
}

/// The runtime has room to convert `v` as capability `cap`.
pub open spec fn has_room<H: LocalImpl>(v: Implementation<H>, rt: Runtime<H>, cat: Catalog, cap: usize) -> bool {
    match v {
        Implementation::ForeignBacked(_) => true,
        Implementation::Local(_) => {
            &&& rt.pinned@.len() < usize::MAX
            &&& rt.objects@.len() + bridge_size(cat.caps@, cap as int) <= usize::MAX
        },
    }
}

/// Converting `v` as capability `cap` took the runtime from `before` to
/// `after` and produced the object `r`. A foreign-backed value is relabelled:
/// the same object, the runtime untouched. A local value is pinned and a
/// fresh bridge object for it is built.
pub open spec fn converted<H: LocalImpl>(
    v: Implementation<H>,
    before: Runtime<H>,
    after: Runtime<H>,
    cat: Catalog,
    cap: usize,
    r: usize,
) -> bool {
    match v {
        Implementation::ForeignBacked(h) => r == h && after == before,
        Implementation::Local(x) => {
            &&& before.pinned@.len() < usize::MAX
            &&& after.pinned@ == before.pinned@.push(x)
            &&& r == before.objects@.len()
            &&& after.objects@.len() == before.objects@.len() + bridge_size(cat.caps@, cap as int)
            &&& after.extends_objects(&before)
            &&& bridge_of(fields_of(after.objects@[r as int]), cat.caps@, cap, before.pinned@.len() as usize)
            &&& after.listeners == before.listeners
            &&& after.log == before.log
        },
    }
}

/// A value that can be turned into an instance of a foreign capability.
pub trait IntoJsInterface<H: LocalImpl>: Sized {
    /// Which path the conversion takes, and with what.
    spec fn implementation(&self) -> Implementation<H>;

    /// Converts to an instance of capability `cap`, consuming the value.
    fn to(self, rt: &mut Runtime<H>, cat: &Catalog, cap: usize) -> (r: usize)
        requires
            valid_cap(cat, cap),
            has_room(self.implementation(), *old(rt), *cat, cap),
        ensures
            converted(self.implementation(), *old(rt), *final(rt), *cat, cap, r),
    ;

    /// Converts to an instance of capability `cap` without consuming the
    /// value; a local value is duplicated before it is pinned.
    fn by_ref(&self, rt: &mut Runtime<H>, cat: &Catalog, cap: usize) -> (r: usize)
        requires
            valid_cap(cat, cap),
            has_room(self.implementation(), *old(rt), *cat, cap),
        ensures
            converted(self.implementation(), *old(rt), *final(rt), *cat, cap, r),
    ;
}

/// Pins `x` and builds its bridge object for capability `cap`.
fn pin_and_bridge<H: LocalImpl>(rt: &mut Runtime<H>, cat: &Catalog, cap: usize, x: H) -> (r: usize)
    requires
        valid_cap(cat, cap),
        has_room(Implementation::Local(x), *old(rt), *cat, cap),
    ensures
        converted(Implementation::Local(x), *old(rt), *final(rt), *cat, cap, r),
{
    let pin = rt.pinned.len();
    rt.pinned.pin(x);
    build_bridge(rt, cat, cap, pin)
}

impl<H: LocalImpl> IntoJsInterface<H> for Implementation<H> {
    open spec fn implementation(&self) -> Implementation<H> {
        *self
    }

    fn to(self, rt: &mut Runtime<H>, cat: &Catalog, cap: usize) -> (r: usize) {
        match self {
            Implementation::ForeignBacked(h) => rt.relabel(h),
            Implementation::Local(x) => pin_and_bridge(rt, cat, cap, x),
        }
    }

    fn by_ref(&self, rt: &mut Runtime<H>, cat: &Catalog, cap: usize) -> (r: usize) {
        match self {
            Implementation::ForeignBacked(h) => rt.relabel(*h),
            Implementation::Local(x) => pin_and_bridge(rt, cat, cap, x.duplicate()),
        }
    }
}

/// Converting a foreign-backed value yields the very object it refers to and
/// builds nothing.
pub proof fn lemma_relabel_identity<H: LocalImpl>(
    h: usize,
    before: Runtime<H>,
    after: Runtime<H>,
    cat: Catalog,
    cap: usize,
    r: usize,
)
    requires
        converted(Implementation::<H>::ForeignBacked(h), before, after, cat, cap, r),
    ensures
        r == h,
        after == before,
        after.objects@.len() == before.objects@.len(),
{
}

/// A foreign-backed value converted by reference and then by value both
/// times takes the relabel path: the same object comes back and the runtime
/// gains no object and no pinned value.
pub proof fn lemma_no_double_wrap<H: LocalImpl>(
    h: usize,
    rt0: Runtime<H>,
    rt1: Runtime<H>,
    rt2: Runtime<H>,
    cat: Catalog,
    cap: usize,
    r1: usize,
    r2: usize,
)
    requires
        converted(Implementation::<H>::ForeignBacked(h), rt0, rt1, cat, cap, r1),
        converted(Implementation::<H>::ForeignBacked(h), rt1, rt2, cat, cap, r2),
    ensures
        r1 == h,
        r2 == h,
        rt2 == rt0,
        rt2.objects@.len() == rt0.objects@.len(),
        rt2.pinned@.len() == rt0.pinned@.len(),
{
}

/// The bridge of a local implementation answers every method of its
/// capability and of all its ancestors, each through a thunk that dispatches
/// to the pinned implementation as an instance of the method's owner.
pub proof fn lemma_bridge_complete<H: LocalImpl>(
    x: H,
    before: Runtime<H>,
    after: Runtime<H>,
    cat: Catalog,
    cap: usize,
    r: usize,
    name: Seq<char>,
)
    requires
        converted(Implementation::Local(x), before, after, cat, cap, r),
        closure(cat.caps@, cap as int).contains(name),
    ensures
        after.answers(r, name),
        after.slot_at(r, name) == Some(
            Slot::Thunk(before.pinned@.len() as usize, owner(cat.caps@, cap as int, name) as usize),
        ),
        after.pinned@[before.pinned@.len() as int] == x,
{
    assert(bridge_size(cat.caps@, cap as int) >= 1);
    let m = fields_of(after.objects@[r as int]);
    assert(m.dom().contains(name));
}

/// The methods a capability with parents `p1` and `p2` (in that order)
/// answers are those of `p1`, those of `p2`, and its own.
pub proof fn lemma_two_parents(cat: Catalog, d: usize, p1: usize, p2: usize)
    requires
        valid_cap(&cat, d),
        cat.caps@[d as int].parents@ == seq![p1, p2],
    ensures
        closure(cat.caps@, d as int) == closure(cat.caps@, p1 as int) + closure(cat.caps@, p2 as int)
            + names_upto(
            cat.caps@[d as int].methods@,
            cat.caps@[d as int].methods@.len() as int,
        ),
{
    let caps = cat.caps@;
    assert(caps[d as int].parents@[0] < d);
    assert(caps[d as int].parents@[1] < d);
    assert(inherited(caps, d as int, 0) == Set::<Seq<char>>::empty());
    assert(inherited(caps, d as int, 1) =~= closure(caps, p1 as int));
    assert(inherited(caps, d as int, 2) =~= closure(caps, p1 as int) + closure(caps, p2 as int));
}

/// Invoking any method of a local implementation's bridge, its
/// capability's or an ancestor's, runs the pinned implementation's method of
/// that name, as its owner defines it, on the arguments and returns its
/// answer.
pub proof fn lemma_bridge_call<H: LocalImpl>(
    x: H,
    before: Runtime<H>,
    after: Runtime<H>,
    cat: Catalog,
    cap: usize,
    r: usize,
    name: Seq<char>,
    args: Seq<Value>,
    later: Runtime<H>,
    res: Option<Value>,
)
    requires
        converted(Implementation::Local(x), before, after, cat, cap, r),
        closure(cat.caps@, cap as int).contains(name),
        call_effect(after, later, r, name, args, res),
    ensures
        res is Some,
        x.answers(owner(cat.caps@, cap as int, name) as usize, name, args, res->0),
{
    lemma_bridge_complete(x, before, after, cat, cap, r, name);
    let p = before.pinned@.len() as usize;
    let o = owner(cat.caps@, cap as int, name) as usize;
    assert(after.slot_at(r, name) == Some(Slot::Thunk(p, o)));
    assert(p < after.pinned@.len());
    assert(after.pinned@[p as int].answers(o, name, args, res->0));
}

/// Composing a child `d` over parents `p1` and `p2`: invoking on the one
/// merged bridge any method of `p1`, of `p2` or of `d` itself runs the
/// implementation's method of that name and returns its answer. The body
/// that runs is `d`'s own where `d` declares the name, else that of `p2`,
/// the later parent, where `p2` answers it, else that of `p1`.
pub proof fn lemma_hierarchy_merge<H: LocalImpl>(
    x: H,
    before: Runtime<H>,
    after: Runtime<H>,
    cat: Catalog,
    d: usize,
    p1: usize,
    p2: usize,
    r: usize,
    name: Seq<char>,
    args: Seq<Value>,
    later: Runtime<H>,
    res: Option<Value>,
)
    requires
        valid_cap(&cat, d),
        cat.caps@[d as int].parents@ == seq![p1, p2],
        converted(Implementation::Local(x), before, after, cat, d, r),
        closure(cat.caps@, p1 as int).contains(name) || closure(cat.caps@, p2 as int).contains(name)
            || exists|j: int|
            0 <= j < cat.caps@[d as int].methods@.len() && (#[trigger] cat.caps@[d as int].methods@[j])@
                == name,
        call_effect(after, later, r, name, args, res),
    ensures
        res is Some,
        x.answers(owner(cat.caps@, d as int, name) as usize, name, args, res->0),
        (exists|j: int|
            0 <= j < cat.caps@[d as int].methods@.len() && (#[trigger] cat.caps@[d as int].methods@[j])@
                == name) ==> owner(cat.caps@, d as int, name) == d,
        !names_upto(cat.caps@[d as int].methods@, cat.caps@[d as int].methods@.len() as int).contains(
            name,
        ) ==> owner(cat.caps@, d as int, name) == if closure(cat.caps@, p2 as int).contains(name) {
            owner(cat.caps@, p2 as int, name)
        } else {
            owner(cat.caps@, p1 as int, name)
        },
{
    lemma_two_parents(cat, d, p1, p2);
    let caps = cat.caps@;
    let ms = caps[d as int].methods@;
    assert(caps[d as int].parents@[0] < d);
    assert(caps[d as int].parents@[1] < d);
    if exists|j: int| 0 <= j < ms.len() && (#[trigger] ms[j])@ == name {
        let j = choose|j: int| 0 <= j < ms.len() && (#[trigger] ms[j])@ == name;
        lemma_names_upto_contains(ms, ms.len() as int, j);
    }
    if !names_upto(ms, ms.len() as int).contains(name) && !closure(caps, p2 as int).contains(name) {
        assert(inherited_owner(caps, d as int, 2, name) == inherited_owner(caps, d as int, 1, name));
        assert(closure(caps, p1 as int).contains(name));
        assert(inherited_owner(caps, d as int, 1, name) == owner(caps, p1 as int, name));
    }
    lemma_bridge_call(x, before, after, cat, d, r, name, args, later, res);
}

proof fn lemma_names_upto_contains(ms: Seq<String>, n: int, j: int)
    requires
        0 <= j < n <= ms.len(),
    ensures
        names_upto(ms, n).contains(ms[j]@),
    decreases n,
{
    if j < n - 1 {
        lemma_names_upto_contains(ms, n - 1, j);
    }
}

} // verus!
