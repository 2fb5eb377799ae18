//! Capability descriptors: named method sets that may extend parents.
use vstd::prelude::*;

verus! {

/// The shape of an interface: its method names and the capabilities it
/// extends, given as indices of earlier entries of a [`Catalog`].
pub struct Capability {
    /// Name of the interface.
    pub name: String,
    /// Names of the methods the capability declares itself.
    pub methods: Vec<String>,
    /// Indices, in declared order, of the capabilities this one extends.
    pub parents: Vec<usize>,
}

/// All capability descriptors known to a program. A capability only extends
/// capabilities that come before it, so the inheritance relation is acyclic.
pub struct Catalog {
    pub caps: Vec<Capability>,
}

/// The set of the first `j` method names of a list.
pub open spec fn names_upto(methods: Seq<String>, j: int) -> Set<Seq<char>>
    decreases j,
{
    if j <= 0 {
        Set::empty()
    } else {
        names_upto(methods, j - 1).insert(methods[j - 1]@)
    }
}

/// Every method name a capability answers, its own and those of all its
/// ancestors.
pub open spec fn closure(caps: Seq<Capability>, i: int) -> Set<Seq<char>>
    decreases i, 1int, 0int,
{
    if 0 <= i < caps.len() {
        inherited(caps, i, caps[i].parents@.len() as int) + names_upto(
            caps[i].methods@,
            caps[i].methods@.len() as int,
        )
    } else {
        Set::empty()
    }
}

/// The method names inherited from the first `k` parents of capability `i`.
pub open spec fn inherited(caps: Seq<Capability>, i: int, k: int) -> Set<Seq<char>>
    decreases i, 0int, k,
{
    if k <= 0 || !(0 <= i < caps.len()) || k > caps[i].parents@.len() {
        Set::empty()
    } else {
        let p = caps[i].parents@[k - 1] as int;
        inherited(caps, i, k - 1) + if 0 <= p < i {
            closure(caps, p)
        } else {
            Set::empty()
        }
    }
}

/// The capability whose own method answers `name` on the bridge of
/// capability `i`: `i` itself when it declares `name`, else the owner in the
/// last parent, in declared order, that answers `name`.
pub open spec fn owner(caps: Seq<Capability>, i: int, name: Seq<char>) -> int
    decreases i, 1int, 0int,
{
    if 0 <= i < caps.len() && !names_upto(caps[i].methods@, caps[i].methods@.len() as int).contains(
        name,
    ) {
        inherited_owner(caps, i, caps[i].parents@.len() as int, name)
    } else {
        i
    }
}

/// The owner of `name` among the first `k` parents of capability `i`: that
/// of the last of them that answers `name`.
pub open spec fn inherited_owner(caps: Seq<Capability>, i: int, k: int, name: Seq<char>) -> int
    decreases i, 0int, k,
{
    if k <= 0 || !(0 <= i < caps.len()) || k > caps[i].parents@.len() {
        i
    } else {
        let p = caps[i].parents@[k - 1] as int;
        if 0 <= p < i && closure(caps, p).contains(name) {
            owner(caps, p, name)
        } else {
            inherited_owner(caps, i, k - 1, name)
        }
    }
}

/// How many objects building the bridge of capability `i` creates: one for
/// the capability and, recursively, those of each parent.
pub open spec fn bridge_size(caps: Seq<Capability>, i: int) -> nat
    decreases i, 1int, 0int,
{
    if 0 <= i < caps.len() {
        1 + inherited_size(caps, i, caps[i].parents@.len() as int)
    } else {
        1
    }
}

/// How many objects building the bridges of the first `k` parents of
/// capability `i` creates.
pub open spec fn inherited_size(caps: Seq<Capability>, i: int, k: int) -> nat
    decreases i, 0int, k,
{
    if k <= 0 || !(0 <= i < caps.len()) || k > caps[i].parents@.len() {
        0
    } else {
        let p = caps[i].parents@[k - 1] as int;
        inherited_size(caps, i, k - 1) + if 0 <= p < i {
            bridge_size(caps, p)
        } else {
            0
        }
    }
}

impl Catalog {
    /// Every capability extends only capabilities listed before it.
    pub open spec fn wf(&self) -> bool {
        forall|i: int, k: int|
            0 <= i < self.caps@.len() && 0 <= k < self.caps@[i].parents@.len()
                ==> #[trigger] self.caps@[i].parents@[k] < i
    }

    /// Creates an empty catalog.
    pub fn new() -> (r: Catalog)
        ensures
            r.wf(),
            r.caps@.len() == 0,
    {
        Catalog { caps: Vec::new() }
    }

    /// Adds a capability and returns its index. Parents must already be
    /// present.
    pub fn declare(&mut self, name: String, methods: Vec<String>, parents: Vec<usize>) -> (r:
        usize)
        requires
            old(self).wf(),
            old(self).caps@.len() < usize::MAX,
            forall|k: int| 0 <= k < parents@.len() ==> parents@[k] < old(self).caps@.len(),
        ensures
            final(self).wf(),
            r == old(self).caps@.len(),
            final(self).caps@ == old(self).caps@.push(
                Capability { name, methods, parents },
            ),
    {
        let r = self.caps.len();
        self.caps.push(Capability { name, methods, parents });
        r
    }
}

} // verus!
