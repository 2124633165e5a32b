//! Access proxies that read a value together with its change ticks, and that
//! stamp the changed tick whenever the value is reached mutably.
use vstd::prelude::*;
use vstd::std_specs::cmp::PartialEqSpec;

use crate::tick::Tick;

verus! {

/// Types that can read change detection information.
pub trait DetectChanges {
    /// The tick at which the value was added.
    spec fn added_tick(&self) -> Tick;

    /// The tick at which the value was last changed.
    spec fn changed_tick(&self) -> Tick;

    /// The tick at which the reading system last ran.
    spec fn last_run(&self) -> Tick;

    /// The tick of the current run of the reading system.
    spec fn this_run(&self) -> Tick;

    /// Returns `true` if the value was added after the system last ran.
    fn is_added(&self) -> (r: bool)
        ensures
            r == self.added_tick().spec_is_newer_than(self.last_run(), self.this_run()),
    ;

    /// Returns `true` if the value was added or reached mutably after the system last ran.
    fn is_changed(&self) -> (r: bool)
        ensures
            r == self.changed_tick().spec_is_newer_than(self.last_run(), self.this_run()),
    ;

    /// The tick of the most recent change.
    fn last_changed(&self) -> (r: Tick)
        ensures
            r == self.changed_tick(),
    ;
}

/// Types that stamp a change whenever their value is reached mutably.
pub trait DetectChangesMut: DetectChanges {
    /// The type of the value behind the proxy.
    type Inner;

    /// The value behind the proxy.
    spec fn inner(&self) -> Self::Inner;

    /// Flags the value as changed in the current run. This cannot be undone.
    fn set_changed(&mut self)
        ensures
            final(self).changed_tick() == old(self).this_run(),
            final(self).inner() == old(self).inner(),
            final(self).added_tick() == old(self).added_tick(),
            final(self).last_run() == old(self).last_run(),
            final(self).this_run() == old(self).this_run(),
    ;

    /// Overwrites the changed tick with `last_changed`. Meant for code that rewrites
    /// history, such as rollback; to flag a change use `set_changed`.
    fn set_last_changed(&mut self, last_changed: Tick)
        ensures
            final(self).changed_tick() == last_changed,
            final(self).inner() == old(self).inner(),
            final(self).added_tick() == old(self).added_tick(),
            final(self).last_run() == old(self).last_run(),
            final(self).this_run() == old(self).this_run(),
    ;

    /// Reaches the value mutably without stamping the changed tick.
    fn bypass_change_detection(&mut self) -> (r: &mut Self::Inner)
        ensures
            *r == old(self).inner(),
            final(self).inner() == *final(r),
            final(self).changed_tick() == old(self).changed_tick(),
            final(self).added_tick() == old(self).added_tick(),
            final(self).last_run() == old(self).last_run(),
            final(self).this_run() == old(self).this_run(),
    ;

    /// Overwrites the value with `value` only if the two differ, and only then
    /// flags a change.
    fn set_if_neq(&mut self, value: Self::Inner) where Self::Inner: PartialEq
        ensures
            <Self::Inner as PartialEqSpec>::obeys_eq_spec() && old(self).inner().eq_spec(&value) ==> {
                &&& final(self).inner() == old(self).inner()
                &&& final(self).changed_tick() == old(self).changed_tick()
            },
            <Self::Inner as PartialEqSpec>::obeys_eq_spec() && !old(self).inner().eq_spec(&value) ==> {
                &&& final(self).inner() == value
                &&& final(self).changed_tick() == old(self).this_run()
            },
            final(self).added_tick() == old(self).added_tick(),
            final(self).last_run() == old(self).last_run(),
            final(self).this_run() == old(self).this_run(),
    {
        let current = self.bypass_change_detection();
        if *current != value {
            *current = value;
            self.set_changed();
        }
    }

    /// Like `set_if_neq`, and returns the replaced value, or `None` when the two
    /// were equal and nothing was written.
    fn replace_if_neq(&mut self, value: Self::Inner) -> (r: Option<Self::Inner>) where Self::Inner: PartialEq
        ensures
            <Self::Inner as PartialEqSpec>::obeys_eq_spec() ==> (r is Some <==> !old(self).inner().eq_spec(&value)),
            r is None ==> final(self).inner() == old(self).inner() && final(self).changed_tick()
                == old(self).changed_tick(),
            r is Some ==> {
                &&& r->0 == old(self).inner()
                &&& final(self).inner() == value
                &&& final(self).changed_tick() == old(self).this_run()
            },
            final(self).added_tick() == old(self).added_tick(),
            final(self).last_run() == old(self).last_run(),
            final(self).this_run() == old(self).this_run(),
    {
        let current = self.bypass_change_detection();
        if *current != value {
            let mut previous = value;
            std::mem::swap(current, &mut previous);
            self.set_changed();
            Some(previous)
        } else {
            None
        }
    }
}

/// The ticks a proxy reads: the component's added and changed ticks, behind
/// references of kind `TickRef`, and the reading system's two reference ticks.
pub struct Ticks<TickRef> {
    pub added: TickRef,
    pub changed: TickRef,
    pub last_run: Tick,
    pub this_run: Tick,
}

/// A view of a value of type `T` together with its change ticks.
///
/// With shared references ([`Ref`]) it reads; with mutable references ([`Mut`])
/// every mutable access stamps the changed tick with `this_run`.
pub struct Proxy<TickRef, T> {
    pub value: T,
    pub ticks: Ticks<TickRef>,
}

/// A read-only proxy.
pub type Ref<'w, T> = Proxy<&'w Tick, &'w T>;

/// A read-write proxy.
pub type Mut<'w, T> = Proxy<&'w mut Tick, &'w mut T>;

/// A read-write proxy over a type-erased value.
pub type MutUntyped<'w> = Proxy<&'w mut Tick, bevy_ptr::PtrMut<'w>>;

/// A read-only proxy over a resource.
pub type Res<'w, T> = Ref<'w, T>;

/// A read-write proxy over a resource.
pub type ResMut<'w, T> = Mut<'w, T>;

impl<TickRef, V> Proxy<TickRef, V> {
    /// Creates a proxy over `value` with the given ticks.
    ///
    /// `last_run` is the tick at which the reading system last ran, `this_run` the
    /// current one. The caller makes sure that no other proxy reaches the same
    /// cells mutably at the same time.
    pub fn new(value: V, added: TickRef, changed: TickRef, last_run: Tick, this_run: Tick) -> (r: Self)
        ensures
            r.value == value,
            r.ticks.added == added,
            r.ticks.changed == changed,
            r.ticks.last_run == last_run,
            r.ticks.this_run == this_run,
    {
        Proxy { value, ticks: Ticks { added, changed, last_run, this_run } }
    }

    /// Maps the value by `f`, keeping the same ticks and flagging no change.
    ///
    /// The result still reports changes on the whole value's ticks.
    pub fn map_unchanged<U, F: FnOnce(V) -> U>(self, f: F) -> (r: Proxy<TickRef, U>)
        requires
            f.requires((self.value,)),
        ensures
            f.ensures((self.value,), r.value),
            r.ticks == self.ticks,
    {
        Proxy { value: f(self.value), ticks: self.ticks }
    }
}

impl<'w, V> Proxy<&'w Tick, V> {
    /// Returns `true` if the value was added after the system last ran.
    pub fn is_added(&self) -> (r: bool)
        ensures
            r == (*self.ticks.added).spec_is_newer_than(self.ticks.last_run, self.ticks.this_run),
    {
        self.ticks.added.is_newer_than(self.ticks.last_run, self.ticks.this_run)
    }

    /// Returns `true` if the value was added or changed after the system last ran.
    pub fn is_changed(&self) -> (r: bool)
        ensures
            r == (*self.ticks.changed).spec_is_newer_than(self.ticks.last_run, self.ticks.this_run),
    {
        self.ticks.changed.is_newer_than(self.ticks.last_run, self.ticks.this_run)
    }

    /// The tick of the most recent change.
    pub fn last_changed(&self) -> (r: Tick)
        ensures
            r == *self.ticks.changed,
    {
        *self.ticks.changed
    }

    /// Returns the value, which may outlive the proxy.
    pub fn into_inner(self) -> (r: V)
        ensures
            r == self.value,
    {
        self.value
    }
}

impl<'w, V> Proxy<&'w mut Tick, V> {
    /// The current changed tick.
    pub open spec fn changed_now(&self) -> Tick {
        *self.ticks.changed
    }

    /// The current added tick.
    pub open spec fn added_now(&self) -> Tick {
        *self.ticks.added
    }

    /// Returns `true` if the value was added after the system last ran.
    pub fn is_added(&self) -> (r: bool)
        ensures
            r == self.added_now().spec_is_newer_than(self.ticks.last_run, self.ticks.this_run),
    {
        self.ticks.added.is_newer_than(self.ticks.last_run, self.ticks.this_run)
    }

    /// Returns `true` if the value was added or changed after the system last ran.
    pub fn is_changed(&self) -> (r: bool)
        ensures
            r == self.changed_now().spec_is_newer_than(self.ticks.last_run, self.ticks.this_run),
    {
        self.ticks.changed.is_newer_than(self.ticks.last_run, self.ticks.this_run)
    }

    /// The tick of the most recent change.
    pub fn last_changed(&self) -> (r: Tick)
        ensures
            r == self.changed_now(),
    {
        *self.ticks.changed
    }

    /// Flags the value as changed: the changed tick becomes `this_run`.
    pub fn set_changed(&mut self)
        ensures
            *final(self).ticks.changed == old(self).ticks.this_run,
            *final(final(self).ticks.changed) == *final(old(self).ticks.changed),
            final(self).value == old(self).value,
            final(self).ticks.added == old(self).ticks.added,
            final(self).ticks.last_run == old(self).ticks.last_run,
            final(self).ticks.this_run == old(self).ticks.this_run,
    {
        *self.ticks.changed = self.ticks.this_run;
    }

    /// Overwrites the changed tick with `last_changed`.
    pub fn set_last_changed(&mut self, last_changed: Tick)
        ensures
            *final(self).ticks.changed == last_changed,
            *final(final(self).ticks.changed) == *final(old(self).ticks.changed),
            final(self).value == old(self).value,
            final(self).ticks.added == old(self).ticks.added,
            final(self).ticks.last_run == old(self).ticks.last_run,
            final(self).ticks.this_run == old(self).ticks.this_run,
    {
        *self.ticks.changed = last_changed;
    }

    /// Consumes the proxy and returns the value, flagging it as changed.
    pub fn into_inner(self) -> (r: V)
        ensures
            r == self.value,
            *final(self.ticks.changed) == self.ticks.this_run,
            *final(self.ticks.added) == self.added_now(),
    {
        let mut this = self;
        this.set_changed();
        this.value
    }
}

impl<'w, T> Proxy<&'w mut Tick, &'w mut T> {
    /// The current value.
    pub open spec fn value_now(&self) -> T {
        *self.value
    }

    /// Reaches the value mutably without stamping the changed tick.
    pub fn bypass_change_detection(&mut self) -> (r: &mut T)
        ensures
            *r == *old(self).value,
            *final(self).value == *final(r),
            *final(final(self).value) == *final(old(self).value),
            final(self).ticks == old(self).ticks,
    {
        &mut *self.value
    }

    /// Reaches the value mutably and flags it as changed.
    pub fn as_mut(&mut self) -> (r: &mut T)
        ensures
            *r == *old(self).value,
            *final(self).value == *final(r),
            *final(final(self).value) == *final(old(self).value),
            *final(self).ticks.changed == old(self).ticks.this_run,
            *final(final(self).ticks.changed) == *final(old(self).ticks.changed),
            final(self).ticks.added == old(self).ticks.added,
            final(self).ticks.last_run == old(self).ticks.last_run,
            final(self).ticks.this_run == old(self).ticks.this_run,
    {
        self.set_changed();
        &mut *self.value
    }

    /// Reads the value.
    pub fn as_ref(&self) -> (r: &T)
        ensures
            *r == self.value_now(),
    {
        &*self.value
    }

    /// A proxy over the same cells that borrows `self` for a shorter time.
    pub fn reborrow(&mut self) -> (r: Proxy<&mut Tick, &mut T>)
        ensures
            *r.value == *old(self).value,
            *r.ticks.added == *old(self).ticks.added,
            *r.ticks.changed == *old(self).ticks.changed,
            r.ticks.last_run == old(self).ticks.last_run,
            r.ticks.this_run == old(self).ticks.this_run,
            *final(self).value == *final(r.value),
            *final(self).ticks.added == *final(r.ticks.added),
            *final(self).ticks.changed == *final(r.ticks.changed),
            *final(final(self).value) == *final(old(self).value),
            *final(final(self).ticks.added) == *final(old(self).ticks.added),
            *final(final(self).ticks.changed) == *final(old(self).ticks.changed),
            final(self).ticks.last_run == old(self).ticks.last_run,
            final(self).ticks.this_run == old(self).ticks.this_run,
    {
        Proxy {
            value: &mut *self.value,
            ticks: Ticks {
                added: &mut *self.ticks.added,
                changed: &mut *self.ticks.changed,
                last_run: self.ticks.last_run,
                this_run: self.ticks.this_run,
            },
        }
    }
}

impl<'w, T: PartialEq> Proxy<&'w mut Tick, &'w mut T> {
    /// Overwrites the value with `value` only if the two differ, and only then
    /// flags a change: writing an equal value leaves value and ticks untouched.
    pub fn set_if_neq(&mut self, value: T)
        ensures
            T::obeys_eq_spec() && (*old(self).value).eq_spec(&value) ==> *final(self) == *old(self),
            T::obeys_eq_spec() && !(*old(self).value).eq_spec(&value) ==> {
                &&& *final(self).value == value
                &&& *final(self).ticks.changed == old(self).ticks.this_run
            },
            *final(self) == *old(self) || (*final(self).value == value
                && *final(self).ticks.changed == old(self).ticks.this_run),
            *final(final(self).value) == *final(old(self).value),
            *final(final(self).ticks.changed) == *final(old(self).ticks.changed),
            final(self).ticks.added == old(self).ticks.added,
            final(self).ticks.last_run == old(self).ticks.last_run,
            final(self).ticks.this_run == old(self).ticks.this_run,
    {
        if *self.value != value {
            *self.value = value;
            self.set_changed();
        }
    }

    /// Like `set_if_neq`, and returns the value that was replaced, or `None` when the
    /// two were equal and nothing was written.
    pub fn replace_if_neq(&mut self, value: T) -> (r: Option<T>)
        ensures
            T::obeys_eq_spec() ==> (r is Some <==> !(*old(self).value).eq_spec(&value)),
            r is None ==> *final(self) == *old(self),
            r is Some ==> {
                &&& r->0 == *old(self).value
                &&& *final(self).value == value
                &&& *final(self).ticks.changed == old(self).ticks.this_run
            },
            *final(final(self).value) == *final(old(self).value),
            *final(final(self).ticks.changed) == *final(old(self).ticks.changed),
            final(self).ticks.added == old(self).ticks.added,
            final(self).ticks.last_run == old(self).ticks.last_run,
            final(self).ticks.this_run == old(self).ticks.this_run,
    {
        if *self.value != value {
            let mut previous = value;
            std::mem::swap(&mut *self.value, &mut previous);
            self.set_changed();
            Some(previous)
        } else {
            None
        }
    }
}

impl<'w, V> DetectChanges for Proxy<&'w Tick, V> {
    open spec fn added_tick(&self) -> Tick {
        *self.ticks.added
    }

    open spec fn changed_tick(&self) -> Tick {
        *self.ticks.changed
    }

    open spec fn last_run(&self) -> Tick {
        self.ticks.last_run
    }

    open spec fn this_run(&self) -> Tick {
        self.ticks.this_run
    }

    fn is_added(&self) -> (r: bool) {
        self.ticks.added.is_newer_than(self.ticks.last_run, self.ticks.this_run)
    }

    fn is_changed(&self) -> (r: bool) {
        self.ticks.changed.is_newer_than(self.ticks.last_run, self.ticks.this_run)
    }

    fn last_changed(&self) -> (r: Tick) {
        *self.ticks.changed
    }
}

impl<'w, V> DetectChanges for Proxy<&'w mut Tick, V> {
    open spec fn added_tick(&self) -> Tick {
        *self.ticks.added
    }

    open spec fn changed_tick(&self) -> Tick {
        *self.ticks.changed
    }

    open spec fn last_run(&self) -> Tick {
        self.ticks.last_run
    }

    open spec fn this_run(&self) -> Tick {
        self.ticks.this_run
    }

    fn is_added(&self) -> (r: bool) {
        self.ticks.added.is_newer_than(self.ticks.last_run, self.ticks.this_run)
    }

    fn is_changed(&self) -> (r: bool) {
        self.ticks.changed.is_newer_than(self.ticks.last_run, self.ticks.this_run)
    }

    fn last_changed(&self) -> (r: Tick) {
        *self.ticks.changed
    }
}

impl<'w, T> DetectChangesMut for Proxy<&'w mut Tick, &'w mut T> {
    type Inner = T;

    open spec fn inner(&self) -> T {
        *self.value
    }

    fn set_changed(&mut self) {
        *self.ticks.changed = self.ticks.this_run;
    }

    fn set_last_changed(&mut self, last_changed: Tick) {
        *self.ticks.changed = last_changed;
    }

    fn bypass_change_detection(&mut self) -> (r: &mut T) {
        &mut *self.value
    }
}

/// A read-write proxy over a value that may only be reached from the thread that
/// owns it.
pub struct NonSendMut<'w, T>(pub Proxy<&'w mut Tick, &'w mut T>);

impl<'w, T> From<NonSendMut<'w, T>> for Proxy<&'w mut Tick, &'w mut T> {
    fn from(value: NonSendMut<'w, T>) -> (r: Self) {
        value.0
    }
}

impl<'w, T> vstd::std_specs::convert::FromSpecImpl<NonSendMut<'w, T>> for Proxy<&'w mut Tick, &'w mut T> {
    open spec fn obeys_from_spec() -> bool {
        true
    }

    open spec fn from_spec(v: NonSendMut<'w, T>) -> Self {
        v.0
    }
}

impl<'w, T> std::ops::Deref for NonSendMut<'w, T> {
    type Target = Proxy<&'w mut Tick, &'w mut T>;

    fn deref(&self) -> &Proxy<&'w mut Tick, &'w mut T> {
        &self.0
    }
}

impl<'w, T> std::ops::DerefMut for NonSendMut<'w, T> {
    fn deref_mut(&mut self) -> &mut Proxy<&'w mut Tick, &'w mut T> {
        &mut self.0
    }
}

impl<'w, V> std::ops::Deref for Proxy<&'w Tick, &'w V> {
    type Target = V;

    fn deref(&self) -> &V {
        self.value
    }
}

impl<'w, V> std::ops::Deref for Proxy<&'w mut Tick, &'w mut V> {
    type Target = V;

    fn deref(&self) -> &V {
        &*self.value
    }
}

impl<'w, V> std::ops::DerefMut for Proxy<&'w mut Tick, &'w mut V> {
    /// Reaching the value mutably flags it as changed.
    fn deref_mut(&mut self) -> (r: &mut V)
        ensures
            *r == *old(self).value,
            *final(self).value == *final(r),
            *final(final(self).value) == *final(old(self).value),
            *final(self).ticks.changed == old(self).ticks.this_run,
            *final(final(self).ticks.changed) == *final(old(self).ticks.changed),
            final(self).ticks.added == old(self).ticks.added,
            final(self).ticks.last_run == old(self).ticks.last_run,
            final(self).ticks.this_run == old(self).ticks.this_run,
    {
        *self.ticks.changed = self.ticks.this_run;
        &mut *self.value
    }
}

impl<'w, T> From<Proxy<&'w mut Tick, &'w mut T>> for Proxy<&'w Tick, &'w T> {
    /// Downgrades a read-write proxy to a read-only one over the same cells; the
    /// mutable borrow is consumed.
    fn from(proxy: Proxy<&'w mut Tick, &'w mut T>) -> (r: Self) {
        Proxy {
            value: &*proxy.value,
            ticks: Ticks {
                added: &*proxy.ticks.added,
                changed: &*proxy.ticks.changed,
                last_run: proxy.ticks.last_run,
                this_run: proxy.ticks.this_run,
            },
        }
    }
}

impl<'w, T> vstd::std_specs::convert::FromSpecImpl<Proxy<&'w mut Tick, &'w mut T>> for Proxy<&'w Tick, &'w T> {
    open spec fn obeys_from_spec() -> bool {
        true
    }

    open spec fn from_spec(proxy: Proxy<&'w mut Tick, &'w mut T>) -> Self {
        Proxy {
            value: &*proxy.value,
            ticks: Ticks {
                added: &*proxy.ticks.added,
                changed: &*proxy.ticks.changed,
                last_run: proxy.ticks.last_run,
                this_run: proxy.ticks.this_run,
            },
        }
    }
}

impl<'a> From<Ticks<&'a mut Tick>> for Ticks<&'a Tick> {
    /// Read-only access to the same tick cells; the mutable borrow is consumed.
    fn from(ticks: Ticks<&'a mut Tick>) -> (r: Self) {
        Ticks { added: &*ticks.added, changed: &*ticks.changed, last_run: ticks.last_run, this_run: ticks.this_run }
    }
}

impl<'a> vstd::std_specs::convert::FromSpecImpl<Ticks<&'a mut Tick>> for Ticks<&'a Tick> {
    open spec fn obeys_from_spec() -> bool {
        true
    }

    open spec fn from_spec(ticks: Ticks<&'a mut Tick>) -> Self {
        Ticks { added: &*ticks.added, changed: &*ticks.changed, last_run: ticks.last_run, this_run: ticks.this_run }
    }
}

} // verus!
