//! Terminal-facing helpers: loading addons, registering Unicode version
//! providers and attaching event listeners.
use vstd::prelude::*;
use crate::bridge::{IntoJsInterface, converted, has_room, valid_cap};
use crate::capability::Catalog;
use crate::disposable::{DisposableWrapper, dispose_method, dispose_name};
use crate::event::{attach_event_listener, attached};
use crate::runtime::{LocalImpl, Runtime, Slot, fields_of};

verus! {

/// A terminal: an object of the runtime that emits events.
pub struct Terminal {
    pub object: usize,
}

/// The buffer namespace of a terminal, which emits buffer changes.
pub struct BufferNamespace {
    pub object: usize,
}

/// The Unicode handling of a terminal, where version providers register.
pub struct UnicodeHandling {
    pub object: usize,
}

impl Terminal {
    /// Creates a terminal object, whose `dispose` is a runtime function, and
    /// encloses it in a wrapper that disposes of it.
    pub fn new_with_wrapper<H: LocalImpl>(rt: &mut Runtime<H>) -> (r: DisposableWrapper)
        requires
            old(rt).objects@.len() < usize::MAX,
        ensures
            r.object() == old(rt).objects@.len(),
            final(rt).objects@.len() == old(rt).objects@.len() + 1,
            final(rt).extends_objects(old(rt)),
            fields_of(final(rt).objects@[r.object() as int]) == Map::<Seq<char>, Slot>::empty().insert(
                dispose_method(),
                Slot::Native,
            ),
            final(rt).pinned == old(rt).pinned,
            final(rt).listeners == old(rt).listeners,
            final(rt).log == old(rt).log,
    {
        let obj = rt.new_object();
        rt.set_field(obj, dispose_name(), Slot::Native);
        DisposableWrapper::from(obj)
    }

    /// Converts `addon` by reference to an instance of the addon capability
    /// `cap` and returns the object to load into the terminal. Host-defined
    /// addons are bridged; runtime-defined ones are passed through.
    pub fn load_xterm_addon<H: LocalImpl, A: IntoJsInterface<H>>(
        &self,
        rt: &mut Runtime<H>,
        cat: &Catalog,
        cap: usize,
        addon: &A,
    ) -> (r: usize)
        requires
            valid_cap(cat, cap),
            has_room(addon.implementation(), *old(rt), *cat, cap),
        ensures
            converted(addon.implementation(), *old(rt), *final(rt), *cat, cap, r),
    {
        addon.by_ref(rt, cat, cap)
    }

    /// Attaches a listener for binary data events; disposing of the result
    /// unregisters it.
    pub fn attach_binary_event_listener<H: LocalImpl>(&self, rt: &mut Runtime<H>, listener: H) -> (r:
        DisposableWrapper)
        requires
            old(rt).objects@.len() + 2 < usize::MAX,
            old(rt).pinned@.len() < usize::MAX,
        ensures
            attached(*old(rt), *final(rt), self.object, "binary"@, listener, r.object()),
    {
        attach_event_listener(rt, self.object, "binary".to_owned(), listener)
    }

    /// Attaches a listener for cursor moves; disposing of the result
    /// unregisters it.
    pub fn attach_cursor_move_event_listener<H: LocalImpl>(&self, rt: &mut Runtime<H>, listener: H) -> (r:
        DisposableWrapper)
        requires
            old(rt).objects@.len() + 2 < usize::MAX,
            old(rt).pinned@.len() < usize::MAX,
        ensures
            attached(*old(rt), *final(rt), self.object, "cursorMove"@, listener, r.object()),
    {
        attach_event_listener(rt, self.object, "cursorMove".to_owned(), listener)
    }

    /// Attaches a listener for key events; disposing of the result
    /// unregisters it.
    pub fn attach_key_event_listener<H: LocalImpl>(&self, rt: &mut Runtime<H>, listener: H) -> (r:
        DisposableWrapper)
        requires
            old(rt).objects@.len() + 2 < usize::MAX,
            old(rt).pinned@.len() < usize::MAX,
        ensures
            attached(*old(rt), *final(rt), self.object, "key"@, listener, r.object()),
    {
        attach_event_listener(rt, self.object, "key".to_owned(), listener)
    }
}

impl BufferNamespace {
    /// Attaches a listener for changes of the active buffer; disposing of
    /// the result unregisters it.
    pub fn attach_buffer_change_event_listener<H: LocalImpl>(
        &self,
        rt: &mut Runtime<H>,
        listener: H,
    ) -> (r: DisposableWrapper)
        requires
            old(rt).objects@.len() + 2 < usize::MAX,
            old(rt).pinned@.len() < usize::MAX,
        ensures
            attached(*old(rt), *final(rt), self.object, "bufferChange"@, listener, r.object()),
    {
        attach_event_listener(rt, self.object, "bufferChange".to_owned(), listener)
    }
}

impl UnicodeHandling {
    /// Converts `provider` by reference to an instance of the version
    /// provider capability `cap` and returns the object to register.
    pub fn register_version_provider<H: LocalImpl, P: IntoJsInterface<H>>(
        &self,
        rt: &mut Runtime<H>,
        cat: &Catalog,
        cap: usize,
        provider: &P,
    ) -> (r: usize)
        requires
            valid_cap(cat, cap),
            has_room(provider.implementation(), *old(rt), *cat, cap),
        ensures
            converted(provider.implementation(), *old(rt), *final(rt), *cat, cap, r),
    {
        provider.by_ref(rt, cat, cap)
    }
}

} // verus!
