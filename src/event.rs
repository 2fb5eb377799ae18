//! Registering host callbacks as event listeners of runtime objects and
//! delivering events to them.
use vstd::prelude::*;
use crate::disposable::{DisposableWrapper, dispose_method, dispose_name};
use crate::runtime::{
    Call, Listener, LocalImpl, Runtime, Slot, Value, call_effect, fields_of, ran, slot_of,
};

verus! {

/// The capability a listener's bridge object is an instance of: the
/// one-method handler shape, which no catalog lists.
pub const HANDLER_CAP: usize = usize::MAX;

/// The name of the single method of a listener's bridge object.
pub open spec fn handler_method() -> Seq<char> {
    "call"@
}

/// The handler method's name as a string.
pub fn handler_name() -> (r: String)
    ensures
        r@ == handler_method(),
{
    "call".to_owned()
}

/// Listener `l` is registered for events of `kind` emitted by `source`.
pub open spec fn listens(l: Listener, source: usize, kind: Seq<char>) -> bool {
    l.active && l.source == source && l.kind@ == kind
}

/// Indices, in registration order, of the first `n` listeners that an event
/// of `kind` from `source` reaches.
pub open spec fn reached(ls: Seq<Listener>, source: usize, kind: Seq<char>, n: int) -> Seq<usize>
    decreases n,
{
    if n <= 0 {
        Seq::empty()
    } else {
        let prev = reached(ls, source, kind, n - 1);
        if listens(ls[n - 1], source, kind) {
            prev.push((n - 1) as usize)
        } else {
            prev
        }
    }
}

/// An event reaches each registered listener exactly once, and no listener
/// that is not registered (never added, or disposed of).
pub proof fn lemma_delivery(ls: Seq<Listener>, source: usize, kind: Seq<char>, n: int)
    requires
        0 <= n <= ls.len() <= usize::MAX,
    ensures
        reached(ls, source, kind, n).no_duplicates(),
        forall|l: int|
            0 <= l < n ==> (reached(ls, source, kind, n).contains(l as usize) <==> listens(
                #[trigger] ls[l],
                source,
                kind,
            )),
        forall|i: int|
            0 <= i < reached(ls, source, kind, n).len() ==> #[trigger] reached(ls, source, kind, n)[i]
                < n,
    decreases n,
{
    if n > 0 {
        lemma_delivery(ls, source, kind, n - 1);
        let prev = reached(ls, source, kind, n - 1);
        let cur = reached(ls, source, kind, n);
        assert forall|l: int| 0 <= l < n implies (cur.contains(l as usize) <==> listens(
            #[trigger] ls[l],
            source,
            kind,
        )) by {
            if listens(ls[n - 1], source, kind) {
                assert(cur == prev.push((n - 1) as usize));
                if cur.contains(l as usize) {
                    let i = choose|i: int| 0 <= i < cur.len() && cur[i] == l as usize;
                    if i < prev.len() {
                        assert(prev[i] == l as usize);
                        assert(prev.contains(l as usize));
                    }
                }
                if l < n - 1 && prev.contains(l as usize) {
                    let i = choose|i: int| 0 <= i < prev.len() && prev[i] == l as usize;
                    assert(cur[i] == l as usize);
                }
                if l == n - 1 {
                    assert(cur[prev.len() as int] == l as usize);
                }
            } else {
                assert(cur == prev);
                if l == n - 1 && prev.contains(l as usize) {
                    let i = choose|i: int| 0 <= i < prev.len() && prev[i] == l as usize;
                    assert(prev[i] < n - 1);
                }
            }
        }
        if listens(ls[n - 1], source, kind) {
            assert forall|i: int, j: int|
                0 <= i < j < reached(ls, source, kind, n).len() implies reached(
                ls,
                source,
                kind,
                n,
            )[i] != reached(ls, source, kind, n)[j] by {
                if j == prev.len() {
                    assert(prev[i] < n - 1);
                }
            }
        }
    }
}

/// The targets, in order, of the first `j` listeners in `hits` whose
/// handler can run: the objects an event is delivered to.
pub open spec fn delivered<H: LocalImpl>(rt: Runtime<H>, hits: Seq<usize>, j: int) -> Seq<usize>
    decreases j,
{
    if j <= 0 || j > hits.len() {
        Seq::empty()
    } else {
        let prev = delivered(rt, hits, j - 1);
        let l = hits[j - 1];
        if l < rt.listeners@.len() && rt.answers(rt.listeners@[l as int].target, handler_method()) {
            prev.push(rt.listeners@[l as int].target)
        } else {
            prev
        }
    }
}

/// Some listener among the first `j` in `hits` has a handler that
/// unregisters listener `l`.
pub open spec fn unregistered<H: LocalImpl>(rt: Runtime<H>, hits: Seq<usize>, j: int, l: int) -> bool
    decreases j,
{
    if j <= 0 || j > hits.len() {
        false
    } else {
        let h = hits[j - 1];
        unregistered(rt, hits, j - 1, l) || (h < rt.listeners@.len() && rt.slot_at(
            rt.listeners@[h as int].target,
            handler_method(),
        ) == Some(Slot::Unregister(l as usize)))
    }
}

/// The listeners after delivering to the first `j` listeners in `hits`:
/// the same listeners, with the same source, kind and target, where a
/// listener stays registered unless a delivered handler unregistered it.
pub open spec fn listeners_after<H: LocalImpl>(
    rt: Runtime<H>,
    hits: Seq<usize>,
    j: int,
    ls: Seq<Listener>,
) -> bool {
    &&& ls.len() == rt.listeners@.len()
    &&& forall|l: int|
        0 <= l < ls.len() ==> #[trigger] ls[l] == Listener {
            active: rt.listeners@[l].active && !unregistered(rt, hits, j, l),
            ..rt.listeners@[l]
        }
}

/// The log `after` is `before` followed by one invocation of the handler
/// of each object in `targets`, each on `arg` and each run in `rt` as its
/// slot prescribes: the pinned callback's answer, for a thunk.
pub open spec fn logs_handlers<H: LocalImpl>(
    rt: Runtime<H>,
    before: Seq<Call>,
    after: Seq<Call>,
    targets: Seq<usize>,
    arg: Value,
) -> bool {
    &&& after.len() == before.len() + targets.len()
    &&& after.take(before.len() as int) == before
    &&& forall|k: int|
        0 <= k < targets.len() ==> (#[trigger] after[before.len() + k]).object == targets[k]
            && after[before.len() + k].method@ == handler_method() && after[before.len() + k].args@
            == seq![arg] && ran(rt, after[before.len() + k])
}

impl<H: LocalImpl> Runtime<H> {
    /// The runtime's own listener registration: registers `target` for
    /// events of `kind` from `source` and returns a new object whose
    /// `dispose` method unregisters it.
    pub fn add_listener(&mut self, source: usize, kind: String, target: usize) -> (r: usize)
        requires
            old(self).objects@.len() < usize::MAX,
        ensures
            r == old(self).objects@.len(),
            final(self).objects@.len() == r + 1,
            final(self).extends_objects(old(self)),
            fields_of(final(self).objects@[r as int]) == Map::<Seq<char>, Slot>::empty().insert(
                dispose_method(),
                Slot::Unregister(old(self).listeners@.len() as usize),
            ),
            final(self).listeners@ == old(self).listeners@.push(
                Listener { source, kind, target, active: true },
            ),
            final(self).pinned == old(self).pinned,
            final(self).log == old(self).log,
    {
        let l = self.listeners.len();
        self.listeners.push(Listener { source, kind, target, active: true });
        let r = self.new_object();
        self.set_field(r, dispose_name(), Slot::Unregister(l));
        r
    }

    /// Emits an event of `kind` from `source` with `arg`: invokes the
    /// handler of every listener registered for it, in registration order,
    /// and returns their indices.
    pub fn emit(&mut self, source: usize, kind: &String, arg: Value) -> (r: Vec<usize>)
        ensures
            r@ == reached(old(self).listeners@, source, kind@, old(self).listeners@.len() as int),
            logs_handlers(
                *old(self),
                old(self).log@,
                final(self).log@,
                delivered(*old(self), r@, r@.len() as int),
                arg,
            ),
            listeners_after(*old(self), r@, r@.len() as int, final(self).listeners@),
            (forall|l: int| 0 <= l < old(self).listeners@.len() ==> !unregistered(
                *old(self),
                r@,
                r@.len() as int,
                l,
            )) ==> final(self).listeners@ == old(self).listeners@,
            final(self).objects == old(self).objects,
            final(self).pinned == old(self).pinned,
    {
        let n = self.listeners.len();
        let mut hit: Vec<usize> = Vec::new();
        let mut i: usize = 0;
        while i < n
            invariant
                0 <= i <= n,
                n == self.listeners@.len(),
                hit@ == reached(self.listeners@, source, kind@, i as int),
            decreases n - i,
        {
            let l = &self.listeners[i];
            if l.active && l.source == source && l.kind == *kind {
                hit.push(i);
            }
            i = i + 1;
        }
        let handler = handler_name();
        let ghost start = *self;
        proof {
            lemma_delivery(self.listeners@, source, kind@, n as int);
            assert forall|l: int| 0 <= l < self.listeners@.len() implies #[trigger] self.listeners@[l]
                == Listener {
                active: start.listeners@[l].active && !unregistered(start, hit@, 0, l),
                ..start.listeners@[l]
            } by {}
            assert(self.log@.take(self.log@.len() as int) =~= self.log@);
        }
        let mut j: usize = 0;
        while j < hit.len()
            invariant
                0 <= j <= hit@.len(),
                start == *old(self),
                handler@ == handler_method(),
                self.objects == old(self).objects,
                self.pinned == old(self).pinned,
                self.listeners@.len() == old(self).listeners@.len(),
                n == old(self).listeners@.len(),
                forall|i: int| 0 <= i < hit@.len() ==> #[trigger] hit@[i] < n,
                forall|l: int|
                    0 <= l < self.listeners@.len() ==> #[trigger] self.listeners@[l].target
                        == old(self).listeners@[l].target,
                listeners_after(start, hit@, j as int, self.listeners@),
                logs_handlers(start, old(self).log@, self.log@, delivered(start, hit@, j as int), arg),
            decreases hit@.len() - j,
        {
            let target = self.listeners_target(hit[j]);
            let ghost before = *self;
            let mut args: Vec<Value> = Vec::new();
            args.push(arg.copy());
            let res = self.call(target, &handler, args);
            proof {
                let l = hit@[j as int];
                let d = delivered(start, hit@, j as int);
                let d2 = delivered(start, hit@, j as int + 1);
                assert(l < n);
                assert(before.listeners@[l as int].target == start.listeners@[l as int].target);
                assert(target == start.listeners@[l as int].target);
                assert(before.answers(target, handler_method()) == start.answers(
                    target,
                    handler_method(),
                ));
                let base = old(self).log@.len();
                if res is Some {
                    assert(d2 == d.push(target));
                    assert(self.log@.drop_last() == before.log@);
                    assert forall|k: int| 0 <= k < d2.len() implies (#[trigger] self.log@[base
                        + k]).object == d2[k] && self.log@[base + k].method@ == handler_method()
                        && self.log@[base + k].args@ == seq![arg] && ran(start, self.log@[base + k]) by {
                        if k < d.len() {
                            assert(self.log@[base + k] == before.log@[base + k]);
                        } else {
                            assert(self.log@[base + k] == self.log@.last());
                        }
                    }
                    assert(self.log@.take(base as int) =~= before.log@.take(base as int));
                } else {
                    assert(d2 == d);
                }
                assert(before.slot_at(target, handler_method()) == start.slot_at(
                    target,
                    handler_method(),
                ));
                assert forall|l2: int| 0 <= l2 < self.listeners@.len() implies #[trigger] self.listeners@[l2]
                    == Listener {
                    active: start.listeners@[l2].active && !unregistered(start, hit@, j as int + 1, l2),
                    ..start.listeners@[l2]
                } by {
                    assert(before.listeners@[l2] == Listener {
                        active: start.listeners@[l2].active && !unregistered(start, hit@, j as int, l2),
                        ..start.listeners@[l2]
                    });
                }
            }
            j = j + 1;
        }
        proof {
            if forall|l: int| 0 <= l < old(self).listeners@.len() ==> !unregistered(
                *old(self),
                hit@,
                hit@.len() as int,
                l,
            ) {
                assert forall|l: int| 0 <= l < self.listeners@.len() implies #[trigger] self.listeners@[l]
                    == old(self).listeners@[l] by {
                    assert(!unregistered(start, hit@, hit@.len() as int, l));
                }
                assert(self.listeners@ =~= old(self).listeners@);
            }
        }
        hit
    }

    /// The object that receives the events of listener `l`, or an index
    /// past the objects when there is no such listener.
    fn listeners_target(&self, l: usize) -> (r: usize)
        ensures
            l < self.listeners@.len() ==> r == self.listeners@[l as int].target,
            l >= self.listeners@.len() ==> r == usize::MAX,
    {
        if l < self.listeners.len() {
            self.listeners[l].target
        } else {
            usize::MAX
        }
    }
}

/// Attaching `callback` for events of `kind` from `source` took the runtime
/// from `before` to `after` and returned the disposer `d`: the callback is
/// pinned, a bridge object whose one method `call` is its thunk follows the
/// old objects, a listener for that bridge is added, and `d`, the object
/// after the bridge, unregisters the listener on `dispose`.
pub open spec fn attached<H: LocalImpl>(
    before: Runtime<H>,
    after: Runtime<H>,
    source: usize,
    kind: Seq<char>,
    callback: H,
    d: usize,
) -> bool {
    let target = before.objects@.len();
    &&& after.pinned@ == before.pinned@.push(callback)
    &&& after.objects@.len() == target + 2
    &&& after.extends_objects(&before)
    &&& fields_of(after.objects@[target as int]) == Map::<Seq<char>, Slot>::empty().insert(
        handler_method(),
        Slot::Thunk(before.pinned@.len() as usize, HANDLER_CAP),
    )
    &&& after.listeners@.len() == before.listeners@.len() + 1
    &&& after.listeners@.drop_last() == before.listeners@
    &&& listens(after.listeners@.last(), source, kind)
    &&& after.listeners@.last().target == target
    &&& d == target + 1
    &&& fields_of(after.objects@[d as int]) == Map::<Seq<char>, Slot>::empty().insert(
        dispose_method(),
        Slot::Unregister(before.listeners@.len() as usize),
    )
    &&& after.log == before.log
}

/// Registers the host callback `callback` for events of `kind` from
/// `source`: the callback is pinned, bridged as an object with the single
/// method `call`, and registered; the returned wrapper unregisters it when
/// disposed of. The callback stays pinned for the rest of the process.
pub fn attach_event_listener<H: LocalImpl>(
    rt: &mut Runtime<H>,
    source: usize,
    kind: String,
    callback: H,
) -> (r: DisposableWrapper)
    requires
        old(rt).objects@.len() + 2 < usize::MAX,
        old(rt).pinned@.len() < usize::MAX,
    ensures
        attached(*old(rt), *final(rt), source, kind@, callback, r.object()),
{
    let pin = rt.pinned.len();
    rt.pinned.pin(callback);
    let target = rt.new_object();
    rt.set_field(target, handler_name(), Slot::Thunk(pin, HANDLER_CAP));
    let ghost mid = *rt;
    let disposer = rt.add_listener(source, kind, target);
    assert(rt.listeners@.drop_last() == mid.listeners@);
    assert(rt.objects@[target as int] == mid.objects@[target as int]);
    DisposableWrapper::from(disposer)
}

/// A recorded run of the handler of a listener attached with `callback`,
/// in any later runtime that kept the objects and pinned values, ran the
/// callback on the event's data: its result is the callback's answer.
pub proof fn lemma_handler_runs_callback<H: LocalImpl>(
    before: Runtime<H>,
    after: Runtime<H>,
    source: usize,
    kind: Seq<char>,
    callback: H,
    d: usize,
    rt: Runtime<H>,
    c: Call,
)
    requires
        before.pinned@.len() < usize::MAX,
        attached(before, after, source, kind, callback, d),
        rt.extends_objects(&after),
        rt.pinned@.len() >= after.pinned@.len(),
        rt.pinned@.take(after.pinned@.len() as int) == after.pinned@,
        c.object == before.objects@.len(),
        c.method@ == handler_method(),
        ran(rt, c),
    ensures
        callback.answers(HANDLER_CAP, handler_method(), c.args@, c.result),
{
    let target = before.objects@.len() as int;
    let pin = before.pinned@.len() as int;
    assert(rt.objects@[target] == after.objects@[target]);
    assert(rt.slot_at(c.object, handler_method()) == Some(Slot::Thunk(pin as usize, HANDLER_CAP)));
    assert(rt.pinned@[pin] == rt.pinned@.take(after.pinned@.len() as int)[pin]);
}

/// Delivering an event never registers a listener again: afterwards a
/// listener listens for an event exactly when it did before and no
/// delivered handler unregistered it. So every later event reaches the
/// listeners that stay registered, and never a disposed one.
pub proof fn lemma_registrations_after_emit<H: LocalImpl>(
    rt: Runtime<H>,
    hits: Seq<usize>,
    ls: Seq<Listener>,
    source: usize,
    kind: Seq<char>,
    l: int,
)
    requires
        listeners_after(rt, hits, hits.len() as int, ls),
        0 <= l < ls.len(),
    ensures
        listens(ls[l], source, kind) <==> listens(rt.listeners@[l], source, kind) && !unregistered(
            rt,
            hits,
            hits.len() as int,
            l,
        ),
{
    assert(ls[l] == Listener {
        active: rt.listeners@[l].active && !unregistered(rt, hits, hits.len() as int, l),
        ..rt.listeners@[l]
    });
}

/// Disposing of a listener's handle unregisters it: no event emitted
/// afterwards reaches it, whatever its source and kind.
pub proof fn lemma_disposed_listener_unreached<H: LocalImpl>(
    before: Runtime<H>,
    after: Runtime<H>,
    handle: usize,
    l: usize,
    r: Option<Value>,
    source: usize,
    kind: Seq<char>,
)
    requires
        after.listeners@.len() <= usize::MAX,
        handle < before.objects@.len(),
        slot_of(fields_of(before.objects@[handle as int]), dispose_method()) == Some(
            Slot::Unregister(l),
        ),
        l < before.listeners@.len(),
        call_effect(before, after, handle, dispose_method(), Seq::empty(), r),
    ensures
        r == Some(Value::Unit),
        !reached(after.listeners@, source, kind, after.listeners@.len() as int).contains(l),
{
    lemma_delivery(after.listeners@, source, kind, after.listeners@.len() as int);
    assert(!listens(after.listeners@[l as int], source, kind));
}

} // verus!
