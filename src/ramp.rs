use vstd::prelude::*;

verus! {

/// Milliseconds that a channel holds each value written during a ramp.
pub const STEP_DELAY_MS: u32 = 10;

/// How many writes (each followed by one delay) a ramp from `current`
/// toward `target` issues: one per unit of distance, so none when the two
/// are already equal.
pub open spec fn step_count(current: u8, target: u8) -> nat {
    if current < target {
        (target - current) as nat
    } else {
        (current - target) as nat
    }
}

/// The value written at step `k` of a ramp: on the way up the duty climbs
/// by one from `current`; on the way down every step writes `target` itself.
pub open spec fn write_at(current: u8, target: u8, k: int) -> u8 {
    if current < target {
        (current + k) as u8
    } else {
        target
    }
}

/// Every value a ramp from `current` toward `target` writes, in order.
pub open spec fn ramp_writes(current: u8, target: u8) -> Seq<u8> {
    Seq::new(step_count(current, target), |k: int| write_at(current, target, k))
}

/// The value a channel's duty register holds after a ramp from `current`
/// toward `target`: one short of the target on the way up, the target
/// itself otherwise.
pub open spec fn ramp_final(current: u8, target: u8) -> u8 {
    if current < target {
        (target - 1) as u8
    } else {
        target
    }
}

/// A ramp up from `current` to a higher `target` writes `current`,
/// `current + 1`, ..., `target - 1`: one write per unit of distance, each one
/// above the last, leaving the channel one short of `target`.
pub proof fn lemma_ramp_up(current: u8, target: u8)
    requires
        current < target,
    ensures
        ramp_writes(current, target).len() == target - current,
        forall|k: int| 0 <= k < target - current ==> #[trigger] ramp_writes(current, target)[k] == current + k,
        ramp_writes(current, target).last() == ramp_final(current, target),
        ramp_final(current, target) == target - 1,
{
}

/// A ramp from `current` down to a `target` at or below it writes `target`
/// at every step, `current - target` times (not at all when the two are
/// equal), and leaves the channel at `target`.
pub proof fn lemma_ramp_down(current: u8, target: u8)
    requires
        current >= target,
    ensures
        ramp_writes(current, target).len() == current - target,
        forall|k: int|
            0 <= k < ramp_writes(current, target).len() ==> #[trigger] ramp_writes(current, target)[k] == target,
        current > target ==> ramp_writes(current, target).last() == ramp_final(current, target),
        ramp_final(current, target) == target,
{
}

/// Ramping a second time toward the same target changes nothing: the channel
/// ends where the first ramp left it. After a descent (or when the channel
/// already held the target) the second ramp writes nothing; after an ascent,
/// which stops one short of the target, it is a single write of the value the
/// channel already holds.
pub proof fn lemma_ramp_idempotent(current: u8, target: u8)
    ensures
        ramp_final(ramp_final(current, target), target) == ramp_final(current, target),
        ramp_writes(ramp_final(current, target), target) == if current < target {
            seq![ramp_final(current, target)]
        } else {
            Seq::<u8>::empty()
        },
{
    let f = ramp_final(current, target);
    if current < target {
        assert(ramp_writes(f, target) =~= seq![f]);
    } else {
        assert(ramp_writes(f, target) =~= Seq::<u8>::empty());
    }
}

/// Computes the duty value a ramp from `current` toward `target` leaves behind.
pub fn final_duty(current: u8, target: u8) -> (r: u8)
    ensures
        r == ramp_final(current, target),
{
    if current < target {
        target - 1
    } else {
        target
    }
}

/// A ramp in progress on one channel, advanced one write at a time so that
/// the caller can wait `STEP_DELAY_MS` (or do other work) between writes.
pub struct Ramp {
    start: u8,
    target: u8,
    taken: u8,
}

impl Ramp {
    /// The duty the channel held when the ramp began.
    pub closed spec fn start(&self) -> u8 {
        self.start
    }

    /// The duty the ramp heads for.
    pub closed spec fn target(&self) -> u8 {
        self.target
    }

    /// How many writes the ramp has handed out so far.
    pub closed spec fn taken(&self) -> nat {
        self.taken as nat
    }

    pub open spec fn wf(&self) -> bool {
        self.taken() <= step_count(self.start(), self.target())
    }

    pub open spec fn is_done(&self) -> bool {
        self.taken() == step_count(self.start(), self.target())
    }

    /// Begins a ramp of a channel that now holds `current` toward `target`.
    pub fn new(current: u8, target: u8) -> (r: Ramp)
        ensures
            r.wf(),
            r.start() == current,
            r.target() == target,
            r.taken() == 0,
    {
        Ramp { start: current, target, taken: 0 }
    }

    /// Tells whether every write of the ramp has been handed out.
    pub fn is_finished(&self) -> (r: bool)
        requires
            self.wf(),
        ensures
            r == self.is_done(),
    {
        if self.start < self.target {
            self.taken == self.target - self.start
        } else {
            self.taken == self.start - self.target
        }
    }

    /// Hands out the next value to write to the channel, or `None` once the
    /// ramp is complete.
    pub fn next_write(&mut self) -> (r: Option<u8>)
        requires
            old(self).wf(),
        ensures
            final(self).wf(),
            final(self).start() == old(self).start(),
            final(self).target() == old(self).target(),
            !old(self).is_done() ==> r == Some(write_at(old(self).start(), old(self).target(), old(self).taken() as int))
                && final(self).taken() == old(self).taken() + 1,
            old(self).is_done() ==> r is None && final(self).taken() == old(self).taken(),
    {
        if self.is_finished() {
            return None;
        }
        let d = if self.start < self.target {
            self.start + self.taken
        } else {
            self.target
        };
        self.taken = self.taken + 1;
        Some(d)
    }
}

/// Ramps a channel whose duty register holds `duty` toward `target`, and
/// returns the values written in order; each write is meant to be followed
/// by a wait of `STEP_DELAY_MS`.
pub fn slide(duty: &mut u8, target: u8) -> (writes: Vec<u8>)
    ensures
        writes@ == ramp_writes(*old(duty), target),
        *final(duty) == ramp_final(*old(duty), target),
{
    let ghost start = *duty;
    let mut ramp = Ramp::new(*duty, target);
    let mut writes: Vec<u8> = Vec::new();
    loop
        invariant
            ramp.wf(),
            ramp.start() == start,
            ramp.target() == target,
            writes@ == ramp_writes(start, target).take(ramp.taken() as int),
            ramp.taken() == 0 ==> *duty == start,
            ramp.taken() > 0 ==> *duty == write_at(start, target, ramp.taken() - 1),
        ensures
            ramp.is_done(),
            ramp.start() == start,
            ramp.target() == target,
            writes@ == ramp_writes(start, target).take(ramp.taken() as int),
            ramp.taken() == 0 ==> *duty == start,
            ramp.taken() > 0 ==> *duty == write_at(start, target, ramp.taken() - 1),
        decreases step_count(start, target) - ramp.taken(),
    {
        match ramp.next_write() {
            Some(d) => {
                *duty = d;
                writes.push(d);
                assert(writes@ =~= ramp_writes(start, target).take(ramp.taken() as int));
            },
            None => {
                break;
            },
        }
    }
    assert(writes@ =~= ramp_writes(start, target));
    writes
}

} // verus!
