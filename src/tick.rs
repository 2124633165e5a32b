//! Wrapping change ticks and the per-component pair of added / changed ticks.
use vstd::prelude::*;

verus! {

/// The minimum number of world tick increments between two overflow scans.
///
/// Ticks can only be scanned while no system runs. With a threshold of `N`, at most
/// `2 * N - 1` increments happen between two scans.
pub const CHECK_TICK_THRESHOLD: u32 = 518_400_000;

/// The largest tick age that cannot overflow before the next scan.
///
/// Changes stop being detected once they are this old.
pub const MAX_CHANGE_AGE: u32 = u32::MAX - (2 * CHECK_TICK_THRESHOLD - 1);

/// Number of distinct tick values.
pub open spec fn tick_modulus() -> int {
    0x1_0000_0000
}

/// `now - then`, computed modulo the tick modulus.
pub open spec fn wrapped_diff(now: u32, then: u32) -> u32 {
    if now >= then {
        (now - then) as u32
    } else {
        (now - then + tick_modulus()) as u32
    }
}

/// The tick value that an overflow scan at `now` leaves in place of `t`: a tick
/// older than [`MAX_CHANGE_AGE`] is moved forward to be exactly that old.
pub open spec fn clamped_tick(t: u32, now: u32) -> u32 {
    if wrapped_diff(now, t) > MAX_CHANGE_AGE {
        wrapped_diff(now, MAX_CHANGE_AGE)
    } else {
        t
    }
}

/// A point in world-mutation time, as a 32-bit counter that wraps around.
///
/// Two ticks have no order by themselves: they are compared through a pair of
/// reference ticks (see [`Tick::is_newer_than`]).
#[derive(Clone, Copy, Debug, PartialEq, Eq, Structural)]
pub struct Tick {
    tick: u32,
}

impl View for Tick {
    type V = u32;

    closed spec fn view(&self) -> u32 {
        self.tick
    }
}

impl Tick {
    /// Whether `self` was recorded after `last_run`, both seen from `this_run`.
    pub open spec fn spec_is_newer_than(self, last_run: Tick, this_run: Tick) -> bool {
        wrapped_diff(this_run@, self@) < wrapped_diff(this_run@, last_run@)
    }

    /// The tick that an overflow scan at `now` leaves in place of `self`.
    pub open spec fn spec_clamped(self, now: Tick) -> u32 {
        clamped_tick(self@, now@)
    }

    /// The tick whose age is exactly [`MAX_CHANGE_AGE`] when seen from tick zero.
    pub fn max() -> (r: Tick)
        ensures
            r@ == MAX_CHANGE_AGE,
    {
        Tick { tick: MAX_CHANGE_AGE }
    }

    /// Creates a tick holding `tick`.
    pub fn new(tick: u32) -> (r: Tick)
        ensures
            r@ == tick,
    {
        Tick { tick }
    }

    /// The raw counter value.
    pub fn get(self) -> (r: u32)
        ensures
            r == self@,
    {
        self.tick
    }

    /// Overwrites the raw counter value.
    pub fn set(&mut self, tick: u32)
        ensures
            final(self)@ == tick,
    {
        self.tick = tick;
    }

    /// Returns `true` if `self` is newer than `last_run`, both seen from `this_run`:
    /// the wrapped distance from `self` to `this_run` is smaller than the one from
    /// `last_run` to `this_run`.
    pub fn is_newer_than(self, last_run: Tick, this_run: Tick) -> (r: bool)
        ensures
            r == self.spec_is_newer_than(last_run, this_run),
    {
        let ticks_since_insert = this_run.tick.wrapping_sub(self.tick);
        let ticks_since_system = this_run.tick.wrapping_sub(last_run.tick);
        ticks_since_insert < ticks_since_system
    }

    /// The age of `other` seen from `self`, as a tick: `self - other`, wrapping.
    pub fn relative_to(self, other: Tick) -> (r: Tick)
        ensures
            r@ == wrapped_diff(self@, other@),
    {
        Tick { tick: self.tick.wrapping_sub(other.tick) }
    }

    /// Clamps `self` so that its age seen from `now` is at most [`MAX_CHANGE_AGE`].
    /// Returns `true` when the tick was moved.
    pub fn check_tick(&mut self, now: Tick) -> (r: bool)
        ensures
            r == (wrapped_diff(now@, old(self)@) > MAX_CHANGE_AGE),
            final(self)@ == old(self).spec_clamped(now),
            wrapped_diff(now@, final(self)@) <= MAX_CHANGE_AGE,
    {
        let age = now.relative_to(*self);
        if age.tick > MAX_CHANGE_AGE {
            *self = now.relative_to(Tick::max());
            true
        } else {
            false
        }
    }
}

/// The pair of ticks stored beside each component: when it was added and when it
/// was last changed.
#[derive(Clone, Copy, Debug, PartialEq, Eq, Structural)]
pub struct ComponentTicks {
    pub added: Tick,
    pub changed: Tick,
}

impl ComponentTicks {
    /// Ticks of a component inserted at `change_tick`: both stamps are `change_tick`.
    pub fn new(change_tick: Tick) -> (r: ComponentTicks)
        ensures
            r.added == change_tick,
            r.changed == change_tick,
    {
        ComponentTicks { added: change_tick, changed: change_tick }
    }

    /// Whether the component was added after `last_run`, seen from `this_run`.
    pub fn is_added(&self, last_run: Tick, this_run: Tick) -> (r: bool)
        ensures
            r == self.added.spec_is_newer_than(last_run, this_run),
    {
        self.added.is_newer_than(last_run, this_run)
    }

    /// Whether the component was added or changed after `last_run`, seen from `this_run`.
    pub fn is_changed(&self, last_run: Tick, this_run: Tick) -> (r: bool)
        ensures
            r == self.changed.spec_is_newer_than(last_run, this_run),
    {
        self.changed.is_newer_than(last_run, this_run)
    }

    /// The tick of the last change.
    pub fn last_changed_tick(&self) -> (r: Tick)
        ensures
            r == self.changed,
    {
        self.changed
    }

    /// The tick of insertion.
    pub fn added_tick(&self) -> (r: Tick)
        ensures
            r == self.added,
    {
        self.added
    }

    /// Records a change at `change_tick`.
    pub fn set_changed(&mut self, change_tick: Tick)
        ensures
            final(self).changed == change_tick,
            final(self).added == old(self).added,
    {
        self.changed = change_tick;
    }

    /// Clamps both ticks so that neither is older than [`MAX_CHANGE_AGE`] seen from `now`.
    pub fn check_ticks(&mut self, now: Tick)
        ensures
            final(self).added@ == old(self).added.spec_clamped(now),
            final(self).changed@ == old(self).changed.spec_clamped(now),
    {
        self.added.check_tick(now);
        self.changed.check_tick(now);
    }
}

/// Two ticks with the same value are equal.
pub proof fn lemma_view_injective(a: Tick, b: Tick)
    ensures
        a@ == b@ ==> a == b,
{
}

/// The tick value that the true, unwrapped count `n` of world updates is stored as.
pub open spec fn tick_of(n: int) -> u32 {
    (n % tick_modulus()) as u32
}

/// The true count that a tick recorded at count `n` stands for after an overflow
/// scan at count `s`: counts older than [`MAX_CHANGE_AGE`] are moved up to `s - MAX_CHANGE_AGE`.
pub open spec fn clamped_count(n: int, s: int) -> int {
    if s - n > MAX_CHANGE_AGE {
        s - MAX_CHANGE_AGE
    } else {
        n
    }
}

/// Two true counts less than the modulus apart: their wrapped difference is their
/// true difference.
proof fn lemma_wrapped_diff_of_counts(p: int, q: int)
    requires
        0 <= q,
        0 <= p - q < tick_modulus(),
    ensures
        wrapped_diff(tick_of(p), tick_of(q)) == p - q,
{
    let m = tick_modulus();
    vstd::arithmetic::div_mod::lemma_fundamental_div_mod(p, m);
    vstd::arithmetic::div_mod::lemma_fundamental_div_mod(q, m);
    vstd::arithmetic::div_mod::lemma_mod_bound(p, m);
    vstd::arithmetic::div_mod::lemma_mod_bound(q, m);
    let k1 = p / m;
    let k2 = q / m;
    assert(p - q == m * (k1 - k2) + (p % m - q % m)) by (nonlinear_arith)
        requires
            p == m * k1 + p % m,
            q == m * k2 + q % m,
    ;
    if k1 - k2 >= 2 {
        assert(m * (k1 - k2) >= 2 * m) by (nonlinear_arith)
            requires
                k1 - k2 >= 2,
                m > 0,
        ;
    } else if k1 - k2 <= -1 {
        assert(m * (k1 - k2) <= -m) by (nonlinear_arith)
            requires
                k1 - k2 <= -1,
                m > 0,
        ;
    }
}

/// An overflow scan at `now` leaves every tick within [`MAX_CHANGE_AGE`] of `now`,
/// and a second scan at the same `now` leaves the result where it is.
pub proof fn lemma_scan_converges(t: Tick, now: Tick, scanned: Tick)
    requires
        scanned@ == t.spec_clamped(now),
    ensures
        wrapped_diff(now@, scanned@) <= MAX_CHANGE_AGE,
        scanned.spec_clamped(now) == scanned@,
{
}

/// Change detection stays exact across wraparound as long as the overflow scan runs
/// often enough.
///
/// Take a change recorded at the true count `a`, a system that last ran at `last`,
/// and a scan at `s` after both, when neither was yet older than the tick range.
/// Until `2 * CHECK_TICK_THRESHOLD - 1` further updates have passed (the most that
/// can pass before the next scan), comparing the scanned ticks from `now` tells
/// exactly whether the clamped change count lies after the clamped run count. In
/// particular a change made before the system's last run is never reported, and a
/// change made after it is reported as long as it is younger than
/// [`MAX_CHANGE_AGE`] at the scan. The clamped counts are again within the tick
/// range at `now`, so the same holds from one scan to the next.
pub proof fn lemma_wraparound_safety(a: int, last: int, s: int, now: int, change: Tick, last_run: Tick, this_run: Tick)
    requires
        0 <= a <= s,
        0 <= last <= s,
        s <= now,
        s - a <= u32::MAX,
        s - last <= u32::MAX,
        now - s <= 2 * CHECK_TICK_THRESHOLD - 1,
        this_run@ == tick_of(now),
        change@ == clamped_tick(tick_of(a), tick_of(s)),
        last_run@ == clamped_tick(tick_of(last), tick_of(s)),
    ensures
        change.spec_is_newer_than(last_run, this_run) == (clamped_count(a, s) > clamped_count(last, s)),
        a <= last ==> !change.spec_is_newer_than(last_run, this_run),
        a > last && s - a < MAX_CHANGE_AGE ==> change.spec_is_newer_than(last_run, this_run),
        now - clamped_count(a, s) <= u32::MAX,
        now - clamped_count(last, s) <= u32::MAX,
{
    lemma_clamped_is_count(a, s);
    lemma_clamped_is_count(last, s);
    let x = clamped_count(a, s);
    let y = clamped_count(last, s);
    lemma_wrapped_diff_of_counts(now, x);
    lemma_wrapped_diff_of_counts(now, y);
}

/// A scan at count `s` stores the tick of the clamped count.
proof fn lemma_clamped_is_count(n: int, s: int)
    requires
        0 <= n <= s,
        s - n <= u32::MAX,
    ensures
        clamped_tick(tick_of(n), tick_of(s)) == tick_of(clamped_count(n, s)),
        0 <= clamped_count(n, s) <= s,
        s - clamped_count(n, s) <= MAX_CHANGE_AGE,
{
    lemma_wrapped_diff_of_counts(s, n);
    if s - n > MAX_CHANGE_AGE {
        lemma_wrapped_diff_of_counts(s, s - MAX_CHANGE_AGE);
        assert(tick_of(MAX_CHANGE_AGE as int) == MAX_CHANGE_AGE) by {
            vstd::arithmetic::div_mod::lemma_small_mod(MAX_CHANGE_AGE as nat, tick_modulus() as nat);
        }
    }
}

} // verus!
