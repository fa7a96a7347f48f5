//! The generator: a small state machine that turns clock readings into a
//! strictly increasing stream of identifiers.

use crate::clock::{current_elapsed_time, now_nanos, ticks_since, MAX_TICK};
use crate::error::Error;
use crate::layout::{lemma_pack_bound, low_mask, shift_or, Layout, Parts};
use vstd::arithmetic::power2::{lemma_pow2_pos, lemma_pow2_strictly_increases, pow2};
use vstd::prelude::*;

verus! {

/// The highest count of elapsed ticks that a generator keeps: two to the
/// 63rd, which no time field can hold.
pub const MAX_ELAPSED_TIME: u64 = 0x8000_0000_0000_0000;

/// A generator of identifiers.
///
/// It holds what never changes (the layout, the epoch and the two numbers
/// that name the generator) and the pair that every call moves on: the
/// ticks elapsed since the epoch and the sequence number within that tick.
/// A copy of a generator would hand out the same identifiers again, so the
/// type has none; share one generator behind a lock instead.
#[derive(Debug)]
pub struct Snowflake {
    layout: Layout,
    start_time: i64,
    data_center_id: u16,
    machine_id: u16,
    elapsed_time: u64,
    sequence: u64,
}

/// A generator as numbers.
pub struct SnowflakeView {
    /// Widths of the four fields.
    pub layout: Layout,
    /// The epoch, in ticks since the Unix epoch.
    pub start_time: int,
    /// Number of the data center.
    pub data_center_id: nat,
    /// Number of the machine.
    pub machine_id: nat,
    /// Ticks elapsed since the epoch, as of the last call.
    pub elapsed_time: nat,
    /// Sequence number within the tick `elapsed_time`.
    pub sequence: nat,
}

/// What one call of the generator gives.
#[derive(Debug)]
pub struct Issued {
    /// The identifier, or why there is none.
    pub result: Result<u64, Error>,
    /// By how many ticks the call moved the generator ahead of the clock
    /// because the sequence numbers of its tick had run out; 0 where it did
    /// not. The caller waits that long, less what of the current tick is
    /// over, before it goes on.
    pub overtime: u64,
}

impl SnowflakeView {
    /// The layout is valid, the epoch is a tick that a time in nanoseconds
    /// can give, and every number fits its field.
    pub open spec fn wf(self) -> bool {
        &&& self.layout.wf()
        &&& -MAX_TICK <= self.start_time <= MAX_TICK
        &&& self.data_center_id < pow2(self.layout.data_center_id as nat)
        &&& self.machine_id < pow2(self.layout.machine_id as nat)
        &&& self.sequence < pow2(self.layout.sequence as nat)
        &&& self.elapsed_time <= MAX_ELAPSED_TIME
    }

    /// The first count of elapsed ticks that the time field cannot hold.
    pub open spec fn time_limit(self) -> nat {
        pow2(self.layout.time as nat)
    }

    /// The elapsed time no longer fits the time field.
    pub open spec fn exhausted(self) -> bool {
        self.elapsed_time >= self.time_limit()
    }

    /// The fields of the identifier that stands for this state.
    pub open spec fn parts(self) -> Parts {
        Parts {
            time: self.elapsed_time,
            sequence: self.sequence,
            data_center_id: self.data_center_id,
            machine_id: self.machine_id,
        }
    }

    /// The sequence numbers of the tick `elapsed_time` have run out: the
    /// next call that finds the clock no further has to move to a new tick.
    pub open spec fn sequence_spent(self) -> bool {
        self.sequence + 1 >= pow2(self.layout.sequence as nat)
    }

    /// The state after a call that read the clock at tick `current`.
    ///
    /// A clock beyond the recorded tick moves the state to the clock's tick
    /// and starts the sequence anew. Otherwise the sequence number goes up by
    /// one; where it has run out, the state moves one tick on and the
    /// sequence starts anew. The tick count stops at `MAX_ELAPSED_TIME`.
    pub open spec fn advance(self, current: int) -> SnowflakeView {
        if self.elapsed_time < current {
            SnowflakeView { elapsed_time: current as nat, sequence: 0, ..self }
        } else if !self.sequence_spent() {
            SnowflakeView { sequence: self.sequence + 1, ..self }
        } else if self.elapsed_time < MAX_ELAPSED_TIME {
            SnowflakeView { elapsed_time: self.elapsed_time + 1, sequence: 0, ..self }
        } else {
            SnowflakeView { sequence: 0, ..self }
        }
    }

    /// By how many ticks a call that read the clock at tick `current` leaves
    /// the state ahead of the clock for want of sequence numbers.
    pub open spec fn overtime(self, current: int) -> nat {
        if self.elapsed_time >= current && self.sequence_spent() {
            (self.advance(current).elapsed_time - current) as nat
        } else {
            0
        }
    }

    /// What a call that leaves the generator in this state returns.
    pub open spec fn issue(self) -> Result<u64, Error> {
        if self.exhausted() {
            Err(Error::OverTimeLimit)
        } else {
            Ok(self.layout.pack(self.parts()) as u64)
        }
    }

    /// A call that reads the clock at `now_nanos` takes this state to
    /// `after` and gives `issued`.
    pub open spec fn step(self, now_nanos: int, after: SnowflakeView, issued: Issued) -> bool {
        let current = ticks_since(self.start_time, now_nanos);
        &&& after == self.advance(current)
        &&& issued.overtime == self.overtime(current)
        &&& issued.result == after.issue()
    }
}

impl View for Snowflake {
    type V = SnowflakeView;

    closed spec fn view(&self) -> SnowflakeView {
        SnowflakeView {
            layout: self.layout,
            start_time: self.start_time as int,
            data_center_id: self.data_center_id as nat,
            machine_id: self.machine_id as nat,
            elapsed_time: self.elapsed_time as nat,
            sequence: self.sequence as nat,
        }
    }
}

impl Snowflake {
    #[verifier::type_invariant]
    closed spec fn inv(self) -> bool {
        self@.wf()
    }

    /// A generator with the given layout, epoch and numbers, in its first
    /// state: no tick elapsed, sequence 0.
    pub fn new_inner(layout: Layout, start_time: i64, data_center_id: u16, machine_id: u16) -> (sf:
        Snowflake)
        requires
            layout.wf(),
            -MAX_TICK <= start_time <= MAX_TICK,
            data_center_id < pow2(layout.data_center_id as nat),
            machine_id < pow2(layout.machine_id as nat),
        ensures
            sf@ == (SnowflakeView {
                layout,
                start_time: start_time as int,
                data_center_id: data_center_id as nat,
                machine_id: machine_id as nat,
                elapsed_time: 0,
                sequence: 0,
            }),
            sf@.wf(),
    {
        proof {
            lemma_pow2_pos(layout.sequence as nat);
        }
        Snowflake { layout, start_time, data_center_id, machine_id, elapsed_time: 0, sequence: 0 }
    }

    /// Gives the next identifier for a clock that reads `now_nanos`
    /// nanoseconds since the Unix epoch.
    ///
    /// The state moves on by the rule of `advance`. The identifier is the
    /// one that stands for the new state; it is higher than the one that
    /// stood for the old state, so that a run of calls gives rising
    /// identifiers whatever the clock does.
    pub fn next_id_at(&mut self, now_nanos: i64) -> (issued: Issued)
        ensures
            old(self)@.step(now_nanos as int, final(self)@, issued),
            old(self)@.issue() is Ok && issued.result is Ok ==> old(self)@.issue()->Ok_0
                < issued.result->Ok_0,
            issued.result matches Ok(id) ==> id <= i64::MAX && id == shift_or(
                final(self)@.layout,
                final(self)@.elapsed_time as u64,
                final(self)@.sequence as u64,
                final(self)@.data_center_id as u64,
                final(self)@.machine_id as u64,
            ) && final(self)@.layout.unpack(id as nat) == final(self)@.parts(),
            final(self)@.wf(),
    {
        proof {
            use_type_invariant(&*self);
            lemma_pow2_pos(self.layout.sequence as nat);
            let current = ticks_since(self@.start_time, now_nanos as int);
            if !self@.advance(current).exhausted() {
                lemma_advance_moves_on(self@, current);
                lemma_before_means_lower(self@, self@.advance(current));
                lemma_pack_bound(self@.layout, self@.parts());
                lemma_pack_bound(self@.layout, self@.advance(current).parts());
            }
        }
        let current = current_elapsed_time(self.start_time, now_nanos);
        let mut overtime: u64 = 0;
        if current > 0 && self.elapsed_time < current as u64 {
            self.elapsed_time = current as u64;
            self.sequence = 0;
        } else if self.sequence < low_mask(self.layout.sequence) {
            self.sequence = self.sequence + 1;
        } else {
            self.sequence = 0;
            if self.elapsed_time < MAX_ELAPSED_TIME {
                self.elapsed_time = self.elapsed_time + 1;
            }
            overtime = if current >= 0 {
                self.elapsed_time - current as u64
            } else {
                self.elapsed_time + (-current) as u64
            };
        }
        if self.elapsed_time > low_mask(self.layout.time) {
            return Issued { result: Err(Error::OverTimeLimit), overtime };
        }
        proof {
            lemma_pack_bound(self.layout, self@.parts());
        }
        let id = self.layout.compose(
            self.elapsed_time,
            self.sequence,
            self.data_center_id as u64,
            self.machine_id as u64,
        );
        Issued { result: Ok(id), overtime }
    }

    /// Reads the clock and gives the next identifier.
    ///
    /// What comes back is what `next_id_at` gives for some reading of the
    /// clock; whatever the clock read, the state moved on by the rule of
    /// `advance`, the tick count did not fall, the identifier is the one
    /// that stands for the new state and is higher than the one that stood
    /// for the old state, and a generator whose time field had run out
    /// gives none.
    pub fn next_id(&mut self) -> (issued: Issued)
        ensures
            exists|now: i64| now >= 0 && #[trigger] old(self)@.step(now as int, final(self)@, issued),
            issued.result == final(self)@.issue(),
            old(self)@.issue() is Ok && issued.result is Ok ==> old(self)@.issue()->Ok_0
                < issued.result->Ok_0,
            issued.result matches Ok(id) ==> id <= i64::MAX && id == shift_or(
                final(self)@.layout,
                final(self)@.elapsed_time as u64,
                final(self)@.sequence as u64,
                final(self)@.data_center_id as u64,
                final(self)@.machine_id as u64,
            ) && final(self)@.layout.unpack(id as nat) == final(self)@.parts(),
            final(self)@.elapsed_time >= old(self)@.elapsed_time,
            old(self)@.exhausted() ==> issued.result == Err::<u64, Error>(Error::OverTimeLimit),
            final(self)@.wf(),
    {
        let now = now_nanos();
        self.next_id_at(now)
    }
}

impl SnowflakeView {
    /// One state stands before another: it has the lower tick count, or the
    /// same tick count and the lower sequence number.
    pub open spec fn before(self, other: SnowflakeView) -> bool {
        self.elapsed_time < other.elapsed_time || (self.elapsed_time == other.elapsed_time
            && self.sequence < other.sequence)
    }

    /// The state after one call for each clock reading in `clocks`, in
    /// order; each reading is the tick that the call found.
    pub open spec fn after(self, clocks: Seq<int>) -> SnowflakeView
        decreases clocks.len(),
    {
        if clocks.len() == 0 {
            self
        } else {
            self.after(clocks.drop_last()).advance(clocks.last())
        }
    }
}

/// A call never takes anything back: the layout, the epoch and the two
/// numbers stay, and the tick count does not fall.
pub proof fn lemma_advance_keeps(v: SnowflakeView, current: int)
    ensures
        v.advance(current).layout == v.layout,
        v.advance(current).start_time == v.start_time,
        v.advance(current).data_center_id == v.data_center_id,
        v.advance(current).machine_id == v.machine_id,
        v.advance(current).elapsed_time >= v.elapsed_time,
        v.exhausted() ==> v.advance(current).exhausted(),
{
}

/// The sequence number starts anew at 0 whenever the tick count moves on;
/// while the tick count stands, it goes up by one, and back to 0 after the
/// highest number of its field.
pub proof fn lemma_sequence_rule(v: SnowflakeView, current: int)
    requires
        v.wf(),
    ensures
        v.advance(current).elapsed_time > v.elapsed_time ==> v.advance(current).sequence == 0,
        v.advance(current).elapsed_time == v.elapsed_time ==> v.advance(current).sequence == (
        v.sequence + 1) % pow2(v.layout.sequence as nat),
{
    let modulus = pow2(v.layout.sequence as nat);
    lemma_pow2_pos(v.layout.sequence as nat);
    if v.sequence + 1 < modulus {
        vstd::arithmetic::div_mod::lemma_small_mod(v.sequence + 1, modulus);
    } else {
        vstd::arithmetic::div_mod::lemma_mod_self_0(modulus as int);
    }
}

/// A call that leaves the time field with room left found a valid state
/// with room left, leaves a valid state, and leaves it strictly after the
/// one it found.
pub proof fn lemma_advance_moves_on(v: SnowflakeView, current: int)
    requires
        v.wf(),
        !v.advance(current).exhausted(),
    ensures
        !v.exhausted(),
        v.advance(current).wf(),
        v.before(v.advance(current)),
{
    let t = v.layout.time as nat;
    lemma_pow2_pos(v.layout.sequence as nat);
    if t < 63 {
        lemma_pow2_strictly_increases(t, 63);
    }
    crate::layout::lemma_pow2_63();
}

/// Of two valid states with the same layout and numbers, the earlier one
/// stands for the lower identifier.
pub proof fn lemma_before_means_lower(a: SnowflakeView, b: SnowflakeView)
    requires
        a.layout == b.layout,
        a.data_center_id == b.data_center_id,
        a.machine_id == b.machine_id,
        a.layout.fits(a.parts()),
        b.layout.fits(b.parts()),
        a.before(b),
    ensures
        a.layout.pack(a.parts()) < b.layout.pack(b.parts()),
{
    crate::layout::lemma_pack_order(a.layout, a.parts(), b.parts());
}

/// After any run of calls the generator still has its layout, epoch and
/// numbers, and its tick count has not fallen; once the time field has run
/// out it stays run out, so every later call fails as well.
pub proof fn lemma_after_keeps(v: SnowflakeView, clocks: Seq<int>)
    ensures
        v.after(clocks).layout == v.layout,
        v.after(clocks).start_time == v.start_time,
        v.after(clocks).data_center_id == v.data_center_id,
        v.after(clocks).machine_id == v.machine_id,
        v.after(clocks).elapsed_time >= v.elapsed_time,
        v.exhausted() ==> v.after(clocks).exhausted(),
        v.exhausted() ==> v.after(clocks).issue() == Err::<u64, Error>(Error::OverTimeLimit),
    decreases clocks.len(),
{
    if clocks.len() > 0 {
        lemma_after_keeps(v, clocks.drop_last());
        lemma_advance_keeps(v.after(clocks.drop_last()), clocks.last());
    }
}

/// Where a run of calls ends with room left in the time field, it ends in a
/// valid state, and every shorter run of the same calls ended in a valid
/// state that stands before it.
pub proof fn lemma_after_moves_on(v: SnowflakeView, clocks: Seq<int>, shorter: int)
    requires
        v.wf(),
        0 <= shorter < clocks.len(),
        !v.after(clocks).exhausted(),
    ensures
        v.after(clocks).wf(),
        v.after(clocks.take(shorter)).wf(),
        !v.after(clocks.take(shorter)).exhausted(),
        v.after(clocks.take(shorter)).before(v.after(clocks)),
    decreases clocks.len(),
{
    let prev = clocks.drop_last();
    lemma_after_wf(v, prev, clocks.last());
    lemma_advance_moves_on(v.after(prev), clocks.last());
    if shorter == clocks.len() - 1 {
        assert(clocks.take(shorter) =~= prev);
    } else {
        assert(prev.take(shorter) =~= clocks.take(shorter));
        lemma_after_moves_on(v, prev, shorter);
    }
}

/// Where a call leaves room in the time field, the run of calls before it
/// ended in a valid state.
proof fn lemma_after_wf(v: SnowflakeView, clocks: Seq<int>, current: int)
    requires
        v.wf(),
        !v.after(clocks).advance(current).exhausted(),
    ensures
        v.after(clocks).wf(),
    decreases clocks.len(),
{
    lemma_advance_keeps(v.after(clocks), current);
    if clocks.len() > 0 {
        lemma_after_wf(v, clocks.drop_last(), clocks.last());
        lemma_advance_moves_on(v.after(clocks.drop_last()), clocks.last());
    }
}

/// Calls made one after the other give strictly increasing identifiers,
/// whatever the clock reads at each of them: of two calls in a run that both
/// give an identifier, the later one gives the higher.
pub proof fn lemma_ids_strictly_increase(v: SnowflakeView, clocks: Seq<int>, i: int, j: int)
    requires
        v.wf(),
        0 < i < j <= clocks.len(),
        v.after(clocks.take(i)).issue() is Ok,
        v.after(clocks.take(j)).issue() is Ok,
    ensures
        v.after(clocks.take(i)).issue()->Ok_0 < v.after(clocks.take(j)).issue()->Ok_0,
{
    let run = clocks.take(j);
    assert(run.take(i) =~= clocks.take(i));
    lemma_after_moves_on(v, run, i);
    let a = v.after(clocks.take(i));
    let b = v.after(run);
    lemma_after_keeps(v, clocks.take(i));
    lemma_after_keeps(v, run);
    lemma_before_means_lower(a, b);
    lemma_pack_bound(a.layout, a.parts());
    lemma_pack_bound(b.layout, b.parts());
}

/// No identifier comes twice: two different calls in a run that both give
/// an identifier give different ones. This holds of any order in which
/// calls reach the generator, and so of callers that take turns behind a
/// lock.
pub proof fn lemma_ids_never_repeat(v: SnowflakeView, clocks: Seq<int>, i: int, j: int)
    requires
        v.wf(),
        0 < i <= clocks.len(),
        0 < j <= clocks.len(),
        i != j,
        v.after(clocks.take(i)).issue() is Ok,
        v.after(clocks.take(j)).issue() is Ok,
    ensures
        v.after(clocks.take(i)).issue()->Ok_0 != v.after(clocks.take(j)).issue()->Ok_0,
{
    if i < j {
        lemma_ids_strictly_increase(v, clocks, i, j);
    } else {
        lemma_ids_strictly_increase(v, clocks, j, i);
    }
}

/// As long as the tick count stands still, every call uses up one sequence
/// number of the tick.
pub proof fn lemma_standing_still_counts(v: SnowflakeView, clocks: Seq<int>)
    requires
        v.wf(),
        v.after(clocks).elapsed_time == v.elapsed_time,
        v.elapsed_time < MAX_ELAPSED_TIME,
    ensures
        v.after(clocks).sequence == v.sequence + clocks.len(),
        v.after(clocks).sequence < pow2(v.layout.sequence as nat),
    decreases clocks.len(),
{
    if clocks.len() > 0 {
        let prev = v.after(clocks.drop_last());
        lemma_after_keeps(v, clocks.drop_last());
        lemma_advance_keeps(prev, clocks.last());
        lemma_standing_still_counts(v, clocks.drop_last());
    }
}

/// A tick holds two to the width of the sequence field identifiers and no
/// more: a run of that many calls, however fast, moves the tick count on.
pub proof fn lemma_sequence_space_runs_out(v: SnowflakeView, clocks: Seq<int>)
    requires
        v.wf(),
        v.elapsed_time < MAX_ELAPSED_TIME,
        clocks.len() >= pow2(v.layout.sequence as nat),
    ensures
        v.after(clocks).elapsed_time > v.elapsed_time,
{
    lemma_after_keeps(v, clocks);
    if v.after(clocks).elapsed_time == v.elapsed_time {
        lemma_standing_still_counts(v, clocks);
    }
}

/// A call that finds the state no further than the clock, or with sequence
/// numbers left, leaves it one tick ahead of the clock at most, so the
/// caller waits one tick at most.
pub proof fn lemma_overtime_within_one_tick(v: SnowflakeView, current: int)
    requires
        v.elapsed_time <= current || !v.sequence_spent(),
    ensures
        v.overtime(current) <= 1,
{
}

/// A call that runs ahead of the clock runs ahead by one tick at least.
pub proof fn lemma_overtime_is_positive(v: SnowflakeView, current: int)
    requires
        v.wf(),
        current < MAX_ELAPSED_TIME,
        v.elapsed_time >= current,
        v.sequence_spent(),
    ensures
        v.overtime(current) >= 1,
{
}

} // verus!
