use vstd::prelude::*;
use vstd::arithmetic::div_mod::{
    lemma_add_mod_noop_right, lemma_fundamental_div_mod_converse_mod,
    lemma_mod_add_multiples_vanish, lemma_mod_bound, lemma_mod_self_0, lemma_small_mod,
};

use crate::ramp::{ramp_final, write_at, Ramp};
use crate::sequence::{color_sequence, sequence, Color, SEQUENCE_LEN};

verus! {

/// Channel numbers, in the order every table entry is played.
pub const RED: usize = 0;
pub const GREEN: usize = 1;
pub const BLUE: usize = 2;

/// The duty value that `color` asks of channel `channel`.
pub open spec fn channel_target(color: Color, channel: int) -> u8 {
    if channel == 0 {
        color.red
    } else if channel == 1 {
        color.green
    } else {
        color.blue
    }
}

/// The table position that follows `index` in a table of `len` entries.
pub open spec fn advance_index(index: int, len: int) -> int {
    (index + 1) % len
}

/// The table position reached from `index` after `n` advances.
pub open spec fn advance_n(index: int, n: nat, len: int) -> int
    decreases n,
{
    if n == 0 {
        index
    } else {
        advance_index(advance_n(index, (n - 1) as nat, len), len)
    }
}

/// Advancing `n` times from `index` reaches `(index + n) % len`.
proof fn lemma_advance_n(index: int, n: nat, len: int)
    requires
        0 <= index < len,
    ensures
        advance_n(index, n, len) == (index + n) % len,
    decreases n,
{
    if n == 0 {
        lemma_small_mod(index as nat, len as nat);
    } else {
        lemma_advance_n(index, (n - 1) as nat, len);
        lemma_add_mod_noop_right(1, index + n - 1, len);
    }
}

proof fn lemma_mod_below_twice(x: int, len: int)
    requires
        0 <= x < 2 * len,
    ensures
        x % len == if x < len {
            x
        } else {
            x - len
        },
{
    if x < len {
        lemma_fundamental_div_mod_converse_mod(x, len, 0, x);
    } else {
        lemma_fundamental_div_mod_converse_mod(x, len, 1, x - len);
    }
}

/// The walk through a table of `len` entries is a cycle of period `len`:
/// starting anywhere, `len` advances come back to the start, and the `len`
/// positions met on the way are all different, so no entry is skipped or
/// repeated. From entry 0 the `k`-th advance reaches entry `k`.
pub proof fn lemma_cursor_cycle(index: int, len: int)
    requires
        0 <= index < len,
    ensures
        advance_n(index, len as nat, len) == index,
        forall|j: nat, k: nat|
            j < k < len ==> #[trigger] advance_n(index, j, len) != #[trigger] advance_n(index, k, len),
        forall|k: nat| k < len ==> #[trigger] advance_n(0, k, len) == k,
{
    lemma_advance_n(index, len as nat, len);
    lemma_mod_add_multiples_vanish(index, len);
    lemma_small_mod(index as nat, len as nat);
    assert forall|j: nat, k: nat| j < k < len implies #[trigger] advance_n(index, j, len) != #[trigger] advance_n(
        index,
        k,
        len,
    ) by {
        lemma_advance_n(index, j, len);
        lemma_advance_n(index, k, len);
        lemma_mod_below_twice(index + j, len);
        lemma_mod_below_twice(index + k, len);
    }
    assert forall|k: nat| k < len implies #[trigger] advance_n(0, k, len) == k by {
        lemma_advance_n(0, k, len);
        lemma_small_mod(k, len as nat);
    }
}

/// The duty a channel holds after it has been ramped toward the targets of
/// entries `0..=n` of `table` in turn, starting from duty `start`.
pub open spec fn duty_after(table: Seq<Color>, channel: int, start: u8, n: nat) -> u8
    decreases n,
{
    let target = channel_target(table[n as int % table.len() as int], channel);
    if n == 0 {
        ramp_final(start, target)
    } else {
        ramp_final(duty_after(table, channel, start, (n - 1) as nat), target)
    }
}

/// Whether, on channel `channel`, every entry of `table` asks for another
/// value than the entry played before it (the last entry counting as the one
/// before the first).
pub open spec fn neighbours_differ(table: Seq<Color>, channel: int) -> bool {
    forall|i: int|
        0 <= i < table.len() ==> channel_target(#[trigger] table[i], channel) != channel_target(
            table[advance_index(i, table.len() as int)],
            channel,
        )
}

/// The duty a channel settles at after the ramp toward entry `n` of `table`,
/// when it comes from the ramp toward the entry before: one short of the
/// target if that entry asked for less, the target itself otherwise.
pub open spec fn settled_duty(table: Seq<Color>, channel: int, n: nat) -> u8 {
    let len = table.len() as int;
    let target = channel_target(table[n as int % len], channel);
    let before = channel_target(table[(n - 1) % len], channel);
    if before < target {
        (target - 1) as u8
    } else {
        target
    }
}

/// Where neighbouring entries of `table` differ on a channel, the duty that
/// channel holds after its `n`-th ramp (`n >= 1`) depends only on entries
/// `n - 1` and `n`, whatever duty it started from; so it repeats with the
/// period of the table, with no drift from one pass to the next.
pub proof fn lemma_channel_cycle(table: Seq<Color>, channel: int, start: u8, n: nat)
    requires
        table.len() > 0,
        0 <= channel < 3,
        neighbours_differ(table, channel),
        n >= 1,
    ensures
        duty_after(table, channel, start, n) == settled_duty(table, channel, n),
        n > table.len() ==> duty_after(table, channel, start, n) == duty_after(
            table,
            channel,
            start,
            (n - table.len()) as nat,
        ),
    decreases n,
{
    let len = table.len() as int;
    let i = (n - 1) % len;
    lemma_mod_bound(n - 1, len);
    lemma_add_mod_noop_right(1, n - 1, len);
    let p = channel_target(table[i], channel);
    let t = channel_target(table[n as int % len], channel);
    assert(advance_index(i, len) == n as int % len);
    assert(p != t);
    let prev = duty_after(table, channel, start, (n - 1) as nat);
    assert(prev == p || (p > 0 && prev == p - 1));
    assert(duty_after(table, channel, start, n) == ramp_final(prev, t));
    if n > len {
        let m = (n - len) as nat;
        lemma_mod_add_multiples_vanish(m as int, len);
        lemma_mod_add_multiples_vanish(m - 1, len);
        assert(n as int % len == m as int % len);
        assert((n - 1) % len == (m - 1) % len);
        if m >= 1 {
            lemma_channel_cycle(table, channel, start, m);
        } else {
            assert(false);
        }
    }
}

/// In the built-in color sequence neighbouring entries differ on every
/// channel, the last entry and the first included.
pub proof fn lemma_sequence_neighbours_differ(channel: int)
    requires
        0 <= channel < 3,
    ensures
        neighbours_differ(color_sequence(), channel),
{
    let s = color_sequence();
    assert forall|i: int| 0 <= i < s.len() implies channel_target(#[trigger] s[i], channel) != channel_target(
        s[advance_index(i, s.len() as int)],
        channel,
    ) by {
        if i == 0 {
            assert(advance_index(i, 64) == 1);
        } else if i == 1 {
            assert(advance_index(i, 64) == 2);
        } else if i == 2 {
            assert(advance_index(i, 64) == 3);
        } else if i == 3 {
            assert(advance_index(i, 64) == 4);
        } else if i == 4 {
            assert(advance_index(i, 64) == 5);
        } else if i == 5 {
            assert(advance_index(i, 64) == 6);
        } else if i == 6 {
            assert(advance_index(i, 64) == 7);
        } else if i == 7 {
            assert(advance_index(i, 64) == 8);
        } else if i == 8 {
            assert(advance_index(i, 64) == 9);
        } else if i == 9 {
            assert(advance_index(i, 64) == 10);
        } else if i == 10 {
            assert(advance_index(i, 64) == 11);
        } else if i == 11 {
            assert(advance_index(i, 64) == 12);
        } else if i == 12 {
            assert(advance_index(i, 64) == 13);
        } else if i == 13 {
            assert(advance_index(i, 64) == 14);
        } else if i == 14 {
            assert(advance_index(i, 64) == 15);
        } else if i == 15 {
            assert(advance_index(i, 64) == 16);
        } else if i == 16 {
            assert(advance_index(i, 64) == 17);
        } else if i == 17 {
            assert(advance_index(i, 64) == 18);
        } else if i == 18 {
            assert(advance_index(i, 64) == 19);
        } else if i == 19 {
            assert(advance_index(i, 64) == 20);
        } else if i == 20 {
            assert(advance_index(i, 64) == 21);
        } else if i == 21 {
            assert(advance_index(i, 64) == 22);
        } else if i == 22 {
            assert(advance_index(i, 64) == 23);
        } else if i == 23 {
            assert(advance_index(i, 64) == 24);
        } else if i == 24 {
            assert(advance_index(i, 64) == 25);
        } else if i == 25 {
            assert(advance_index(i, 64) == 26);
        } else if i == 26 {
            assert(advance_index(i, 64) == 27);
        } else if i == 27 {
            assert(advance_index(i, 64) == 28);
        } else if i == 28 {
            assert(advance_index(i, 64) == 29);
        } else if i == 29 {
            assert(advance_index(i, 64) == 30);
        } else if i == 30 {
            assert(advance_index(i, 64) == 31);
        } else if i == 31 {
            assert(advance_index(i, 64) == 32);
        } else if i == 32 {
            assert(advance_index(i, 64) == 33);
        } else if i == 33 {
            assert(advance_index(i, 64) == 34);
        } else if i == 34 {
            assert(advance_index(i, 64) == 35);
        } else if i == 35 {
            assert(advance_index(i, 64) == 36);
        } else if i == 36 {
            assert(advance_index(i, 64) == 37);
        } else if i == 37 {
            assert(advance_index(i, 64) == 38);
        } else if i == 38 {
            assert(advance_index(i, 64) == 39);
        } else if i == 39 {
            assert(advance_index(i, 64) == 40);
        } else if i == 40 {
            assert(advance_index(i, 64) == 41);
        } else if i == 41 {
            assert(advance_index(i, 64) == 42);
        } else if i == 42 {
            assert(advance_index(i, 64) == 43);
        } else if i == 43 {
            assert(advance_index(i, 64) == 44);
        } else if i == 44 {
            assert(advance_index(i, 64) == 45);
        } else if i == 45 {
            assert(advance_index(i, 64) == 46);
        } else if i == 46 {
            assert(advance_index(i, 64) == 47);
        } else if i == 47 {
            assert(advance_index(i, 64) == 48);
        } else if i == 48 {
            assert(advance_index(i, 64) == 49);
        } else if i == 49 {
            assert(advance_index(i, 64) == 50);
        } else if i == 50 {
            assert(advance_index(i, 64) == 51);
        } else if i == 51 {
            assert(advance_index(i, 64) == 52);
        } else if i == 52 {
            assert(advance_index(i, 64) == 53);
        } else if i == 53 {
            assert(advance_index(i, 64) == 54);
        } else if i == 54 {
            assert(advance_index(i, 64) == 55);
        } else if i == 55 {
            assert(advance_index(i, 64) == 56);
        } else if i == 56 {
            assert(advance_index(i, 64) == 57);
        } else if i == 57 {
            assert(advance_index(i, 64) == 58);
        } else if i == 58 {
            assert(advance_index(i, 64) == 59);
        } else if i == 59 {
            assert(advance_index(i, 64) == 60);
        } else if i == 60 {
            assert(advance_index(i, 64) == 61);
        } else if i == 61 {
            assert(advance_index(i, 64) == 62);
        } else if i == 62 {
            assert(advance_index(i, 64) == 63);
        } else {
            assert(advance_index(i, 64) == 0);
        }
    }
}

/// Played through the built-in color sequence, each channel settles after
/// its `n`-th ramp (`n >= 1`) at a duty fixed by entries `n - 1` and `n`
/// alone, and so repeats with period `SEQUENCE_LEN` from one pass to the next.
pub proof fn lemma_sequence_channel_cycle(channel: int, start: u8, n: nat)
    requires
        0 <= channel < 3,
        n >= 1,
    ensures
        duty_after(color_sequence(), channel, start, n) == settled_duty(color_sequence(), channel, n),
        n > SEQUENCE_LEN ==> duty_after(color_sequence(), channel, start, n) == duty_after(
            color_sequence(),
            channel,
            start,
            (n - SEQUENCE_LEN) as nat,
        ),
{
    lemma_sequence_neighbours_differ(channel);
    lemma_channel_cycle(color_sequence(), channel, start, n);
}

/// The (entry, channel) pair ramped after `channel` of entry `index`:
/// red, green, blue, then red of the following entry.
pub open spec fn next_position(index: int, channel: int, len: int) -> (int, int) {
    if channel < 2 {
        (index, channel + 1)
    } else {
        (advance_index(index, len), 0)
    }
}

/// Plays a table of color targets forever: for each entry it ramps the red,
/// green and blue channels in turn toward the entry's values, one write at a
/// time, and after the last entry starts over from the first.
pub struct Player {
    table: Vec<Color>,
    duties: [u8; 3],
    index: usize,
    channel: usize,
    ramp: Ramp,
}

impl Player {
    pub closed spec fn table(&self) -> Seq<Color> {
        self.table@
    }

    /// What each channel's duty register holds, as the player last wrote it.
    pub closed spec fn duties(&self) -> Seq<u8> {
        self.duties@
    }

    /// The table entry being played.
    pub closed spec fn index(&self) -> int {
        self.index as int
    }

    /// The channel being ramped.
    pub closed spec fn channel(&self) -> int {
        self.channel as int
    }

    /// The ramp under way on that channel.
    pub closed spec fn ramp(&self) -> Ramp {
        self.ramp
    }

    /// The duty the current channel is being ramped toward.
    pub open spec fn current_target(&self) -> u8 {
        channel_target(self.table()[self.index()], self.channel())
    }

    pub open spec fn wf(&self) -> bool {
        &&& self.table().len() > 0
        &&& self.duties().len() == 3
        &&& 0 <= self.index() < self.table().len()
        &&& 0 <= self.channel() < 3
        &&& self.ramp().wf()
        &&& self.ramp().target() == self.current_target()
        &&& self.ramp().taken() == 0 ==> self.duties()[self.channel()] == self.ramp().start()
        &&& self.ramp().taken() > 0 ==> self.duties()[self.channel()] == write_at(
            self.ramp().start(),
            self.ramp().target(),
            self.ramp().taken() - 1,
        )
    }

    /// Once the ramp under way is complete, its channel holds what the ramp
    /// leaves behind: `ramp_final` of the duty it began from and its target.
    pub proof fn lemma_completed_ramp(&self)
        requires
            self.wf(),
            self.ramp().is_done(),
        ensures
            self.duties()[self.channel()] == ramp_final(self.ramp().start(), self.current_target()),
    {
    }

    /// Starts playing `table` at its first entry, red channel, with the
    /// channels' duty registers holding `red`, `green` and `blue`.
    pub fn new(table: Vec<Color>, red: u8, green: u8, blue: u8) -> (r: Player)
        requires
            table@.len() > 0,
        ensures
            r.wf(),
            r.table() == table@,
            r.duties() == seq![red, green, blue],
            r.index() == 0,
            r.channel() == RED,
            r.ramp().start() == red,
            r.ramp().taken() == 0,
    {
        let target = table[0].red;
        let r = Player { table, duties: [red, green, blue], index: 0, channel: RED, ramp: Ramp::new(red, target) };
        assert(r.duties() =~= seq![red, green, blue]);
        r
    }

    /// Starts playing the built-in color sequence.
    pub fn with_sequence(red: u8, green: u8, blue: u8) -> (r: Player)
        ensures
            r.wf(),
            r.table() == color_sequence(),
            r.duties() == seq![red, green, blue],
            r.index() == 0,
            r.channel() == RED,
            r.ramp().start() == red,
            r.ramp().taken() == 0,
    {
        Player::new(sequence(), red, green, blue)
    }

    /// Moves the playback on by one step and returns the channel it concerns
    /// with the value to write to it, if any; after a write the caller waits
    /// `STEP_DELAY_MS`. While a ramp is under way each call hands out its next
    /// write. Once it is complete, the next channel's ramp begins from the duty
    /// that channel holds; when that channel already holds its target the ramp
    /// is empty and the call returns `None` for it, with nothing to write and
    /// nothing to wait for.
    pub fn next_write(&mut self) -> (r: (usize, Option<u8>))
        requires
            old(self).wf(),
        ensures
            final(self).wf(),
            final(self).table() == old(self).table(),
            r.0 == final(self).channel(),
            r.1 matches Some(d) ==> final(self).duties() == old(self).duties().update(r.0 as int, d),
            r.1 is None ==> final(self).duties() == old(self).duties(),
            !old(self).ramp().is_done() ==> {
                &&& final(self).index() == old(self).index()
                &&& final(self).channel() == old(self).channel()
                &&& final(self).ramp().start() == old(self).ramp().start()
                &&& final(self).ramp().taken() == old(self).ramp().taken() + 1
                &&& r.1 == Some(
                    write_at(old(self).ramp().start(), old(self).current_target(), old(self).ramp().taken() as int),
                )
            },
            old(self).ramp().is_done() ==> {
                &&& (final(self).index(), final(self).channel()) == next_position(
                    old(self).index(),
                    old(self).channel(),
                    old(self).table().len() as int,
                )
                &&& final(self).ramp().start() == old(self).duties()[final(self).channel()]
                &&& if final(self).ramp().start() == final(self).current_target() {
                    &&& r.1 is None
                    &&& final(self).ramp().taken() == 0
                } else {
                    &&& r.1 == Some(write_at(final(self).ramp().start(), final(self).current_target(), 0))
                    &&& final(self).ramp().taken() == 1
                }
            },
    {
        if self.ramp.is_finished() {
            if self.channel < 2 {
                self.channel = self.channel + 1;
            } else {
                self.channel = RED;
                let len = self.table.len();
                if self.index < len - 1 {
                    proof {
                        lemma_small_mod((self.index + 1) as nat, len as nat);
                    }
                    self.index = self.index + 1;
                } else {
                    proof {
                        lemma_mod_self_0(len as int);
                    }
                    self.index = 0;
                }
            }
            let color = self.table[self.index];
            let target = if self.channel == RED {
                color.red
            } else if self.channel == GREEN {
                color.green
            } else {
                color.blue
            };
            self.ramp = Ramp::new(self.duties[self.channel], target);
        }
        let w = self.ramp.next_write();
        if let Some(d) = w {
            self.duties[self.channel] = d;
        }
        (self.channel, w)
    }

    /// The table entry being played.
    pub fn current_index(&self) -> (r: usize)
        requires
            self.wf(),
        ensures
            r == self.index(),
    {
        self.index
    }

    /// The duty each channel holds: red, green, blue.
    pub fn current_duties(&self) -> (r: [u8; 3])
        requires
            self.wf(),
        ensures
            r@ == self.duties(),
    {
        self.duties
    }
}

} // verus!
