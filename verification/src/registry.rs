use vstd::prelude::*;

use crate::observer::Observer;

verus! {

/// An arena that owns observers on behalf of their creators.
///
/// Each observer added to a registry occupies one slot forever. The caller
/// keeps the owning [`Handle`]; dropping the handle back into the registry
/// kills the slot, after which every [`WeakRef`] pointing at it reports the
/// observer as gone. Slots are never reused, so a weak reference can never
/// be revived by a later addition.
///
/// A registry's view is the sequence of its slots: `Some(observer)` for a
/// live slot, `None` for a dead one.
pub struct Registry<O> {
    slots: Vec<Option<O>>,
}

/// The owning handle to one observer in a [`Registry`].
///
/// There is exactly one owning handle per slot; giving it up via
/// [`Registry::drop_handle`] is what ends the observer's life.
pub struct Handle {
    index: usize,
}

/// A non-owning reference to a registry slot.
///
/// A weak reference never keeps its observer alive: once the owning
/// [`Handle`] is dropped, delivery through any copy of this reference
/// simply finds nothing.
#[derive(Clone, Copy)]
pub struct WeakRef {
    index: usize,
}

impl Handle {
    /// The slot this handle owns.
    pub closed spec fn index(&self) -> int {
        self.index as int
    }

    /// Produce a non-owning reference to the same slot.
    pub fn downgrade(&self) -> (weak: WeakRef)
        ensures
            weak.index() == self.index(),
    {
        WeakRef { index: self.index }
    }
}

impl WeakRef {
    /// The slot this reference points at.
    pub closed spec fn index(&self) -> int {
        self.index as int
    }
}

/// Whether slot `i` of a registry viewed as `reg` holds a live observer.
pub open spec fn live<O>(reg: Seq<Option<O>>, i: int) -> bool {
    0 <= i < reg.len() && reg[i] is Some
}

/// The registry contents after one delivery attempt at slot `i`: the live
/// observer there reacts to `m`, a dead or absent slot leaves the registry
/// untouched.
pub open spec fn deliver_one<T, O: Observer<T>>(reg: Seq<Option<O>>, i: int, m: T) -> Seq<
    Option<O>,
> {
    if live(reg, i) {
        reg.update(i, Some((reg[i]->0).notified(m)))
    } else {
        reg
    }
}

impl<O> View for Registry<O> {
    type V = Seq<Option<O>>;

    closed spec fn view(&self) -> Seq<Option<O>> {
        self.slots@
    }
}

impl<O> Registry<O> {
    /// An empty registry.
    pub fn new() -> (registry: Registry<O>)
        ensures
            registry@ == Seq::<Option<O>>::empty(),
    {
        Registry { slots: Vec::new() }
    }

    /// Take ownership of `observer`, placing it in a fresh slot, and return
    /// the owning handle to that slot.
    pub fn add(&mut self, observer: O) -> (handle: Handle)
        ensures
            final(self)@ == old(self)@.push(Some(observer)),
            handle.index() == old(self)@.len(),
    {
        let handle = Handle { index: self.slots.len() };
        self.slots.push(Some(observer));
        handle
    }

    /// Give up the owning handle: the observer in its slot is destroyed and
    /// the slot stays dead forever.
    pub fn drop_handle(&mut self, handle: Handle)
        ensures
            handle.index() < old(self)@.len() ==> final(self)@ == old(self)@.update(
                handle.index(),
                None,
            ),
            handle.index() >= old(self)@.len() ==> final(self)@ == old(self)@,
    {
        if handle.index < self.slots.len() {
            self.slots[handle.index] = None;
        }
    }

    /// Borrow the observer owned by `handle`, or `None` if its slot is dead
    /// or lies outside this registry.
    pub fn get(&self, handle: &Handle) -> (observer: Option<&O>)
        ensures
            match observer {
                Some(o) => live(self@, handle.index()) && self@[handle.index()] == Some(*o),
                None => !live(self@, handle.index()),
            },
    {
        if handle.index < self.slots.len() {
            self.slots[handle.index].as_ref()
        } else {
            None
        }
    }

    /// Attempt one delivery through a weak reference: if the slot is live,
    /// its observer reacts to `message` under exclusive access; otherwise
    /// nothing happens. Returns whether the observer was reached.
    pub(crate) fn notify_weak<T>(&mut self, observer: WeakRef, message: &T) -> (delivered: bool)
        where O: Observer<T>
        ensures
            delivered == live(old(self)@, observer.index()),
            final(self)@ == deliver_one(old(self)@, observer.index(), *message),
    {
        if observer.index >= self.slots.len() {
            return false;
        }
        let slot = &mut self.slots[observer.index];
        let delivered: bool;
        match slot.as_mut() {
            Some(o) => {
                o.notify(message);
                delivered = true;
            },
            None => {
                delivered = false;
            },
        }
        proof {
            if !delivered {
                assert(self@ =~= old(self)@);
            }
        }
        delivered
    }
}

} // verus!
