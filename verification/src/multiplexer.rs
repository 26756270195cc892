//! A fixed-size round-robin channel sequencer: it drives a bank of digital
//! select lines so that an external analog switch routes one of `LENGTH`
//! channels to a single analog input, and it caches the last reading seen for
//! every channel.

use vstd::prelude::*;

use embedded_hal::digital::v2::{OutputPin, PinState};

verus! {

use vstd::arithmetic::power2::pow2;
use vstd::arithmetic::power2::lemma2_to64;
use vstd::arithmetic::div_mod::lemma_small_mod;
use vstd::arithmetic::div_mod::lemma_add_mod_noop;
use vstd::arithmetic::div_mod::lemma_mod_add_multiples_vanish;

/// The cached readings a freshly constructed multiplexer starts with: one
/// zero entry per channel.
pub open spec fn initial_channels(count: nat) -> Seq<u32> {
    Seq::new(count, |i: int| 0u32)
}

/// The logic level select line `i` must carry while channel `index` is
/// addressed: bit `i` of the binary encoding of `index`, line 0 carrying the
/// least-significant bit.
pub open spec fn line_level(index: nat, i: nat) -> bool {
    (index / pow2(i)) % 2 == 1
}

/// The levels of all `lines` select lines while channel `index` is
/// addressed, line 0 first.
pub open spec fn select_levels(index: nat, lines: nat) -> Seq<bool> {
    Seq::new(lines, |i: int| line_level(index, i as nat))
}

/// Relies on `embedded_hal::digital::v2::OutputPin::set_state`: drives the
/// pin to the given logic level, `true` for high. A failed drive is
/// deliberately ignored — GPIO writes on the targeted hardware class do not
/// fail in practice — so nothing is promised of the handle afterwards.
#[verifier::external_body]
fn set_line<P: OutputPin>(pin: &mut P, high: bool) {
    let _ = pin.set_state(PinState::from(high));
}

/// Time-multiplexes `LENGTH` analog channels onto one analog input.
///
/// `A` is the owned analog-input handle, `D` the owned tuple of digital
/// select-line handles; `LENGTH` is the channel count, fixed at 2, 4 or 8 by
/// the constructor used. Select line `i` carries bit `i` of the index of the
/// channel currently addressed.
pub struct Multiplexer<A, D, const LENGTH: usize> {
    analog_pin: A,
    digital_pins: D,
    channels: [u32; LENGTH],
    index: u8,
    lines: Ghost<Seq<bool>>,
}

impl<A, D, const LENGTH: usize> Multiplexer<A, D, LENGTH> {
    /// The index of the channel the select lines currently address.
    pub closed spec fn current_index(&self) -> nat {
        self.index as nat
    }

    /// The cached reading of every channel, in channel order.
    pub closed spec fn channel_values(&self) -> Seq<u32> {
        self.channels@
    }

    /// The logic levels most recently driven onto the select lines, line 0
    /// first. Until the first `tick` the lines keep whatever state their
    /// handles were constructed with, so this is unconstrained then.
    pub closed spec fn line_levels(&self) -> Seq<bool> {
        self.lines@
    }

    /// The owned analog-input handle.
    pub closed spec fn analog(&self) -> A {
        self.analog_pin
    }

    /// The owned select-line handles.
    pub closed spec fn selects(&self) -> D {
        self.digital_pins
    }

    /// The cursor always addresses an existing channel.
    pub closed spec fn wf(&self) -> bool {
        self.index < LENGTH
    }

    /// Mutable access to the analog-input handle, so an external sampler can
    /// read the currently selected channel; nothing else changes.
    pub fn analog_pin(&mut self) -> (r: &mut A)
        ensures
            *r == old(self).analog(),
            final(self).analog() == *final(r),
            final(self).channel_values() == old(self).channel_values(),
            final(self).current_index() == old(self).current_index(),
            final(self).line_levels() == old(self).line_levels(),
            final(self).selects() == old(self).selects(),
            final(self).wf() == old(self).wf(),
    {
        &mut self.analog_pin
    }

    /// A read-only view of the cached value of every channel.
    pub fn channels(&self) -> (r: &[u32])
        ensures
            r@ == self.channel_values(),
    {
        self.channels.as_slice()
    }

    /// Records `value` as the reading of the currently addressed channel;
    /// the cursor, the select lines and the other channels are untouched.
    pub fn update(&mut self, value: u32)
        requires
            old(self).wf(),
        ensures
            final(self).wf(),
            final(self).channel_values() == old(self).channel_values().update(
                old(self).current_index() as int,
                value,
            ),
            final(self).current_index() == old(self).current_index(),
            final(self).line_levels() == old(self).line_levels(),
            final(self).analog() == old(self).analog(),
            final(self).selects() == old(self).selects(),
    {
        self.channels[self.index as usize] = value;
    }
}

impl<A, D0: OutputPin> Multiplexer<A, (D0,), 2> {
    /// Builds a two-channel multiplexer from one analog input and one select
    /// line. The cursor starts at channel 0 and every cached value at 0; the
    /// select line keeps whatever state its handle came with until the first
    /// `tick`.
    pub fn new_1(analog_pin: A, digital_pins: (D0,)) -> (r: Self)
        ensures
            r.wf(),
            r.current_index() == 0,
            r.channel_values() == initial_channels(2),
            r.analog() == analog_pin,
            r.selects() == digital_pins,
    {
        let r = Multiplexer {
            analog_pin,
            digital_pins,
            channels: [0u32; 2],
            index: 0u8,
            lines: Ghost(arbitrary()),
        };
        proof {
            assert(r.channels@ =~= initial_channels(2));
        }
        r
    }

    /// Advances the cursor by one channel, wrapping after the last, and
    /// drives the select line to bit 0 of the new cursor; the cached values
    /// and the analog handle are untouched.
    pub fn tick(&mut self)
        requires
            old(self).wf(),
        ensures
            final(self).wf(),
            final(self).current_index() == (old(self).current_index() + 1) % 2,
            final(self).line_levels() == select_levels(final(self).current_index(), 1),
            final(self).channel_values() == old(self).channel_values(),
            final(self).analog() == old(self).analog(),
    {
        self.index = (self.index + 1) % 2;
        let b0: bool = self.index & 1 == 1;
        set_line(&mut self.digital_pins.0, b0);
        proof {
            self.lines@ = seq![b0];
            lemma2_to64();
            let i = self.index;
            assert(i & 1 == 1 <==> i % 2 == 1) by (bit_vector);
            assert(self.lines@ =~= select_levels(self.index as nat, 1));
        }
    }
}

impl<A, D0: OutputPin, D1: OutputPin> Multiplexer<A, (D0, D1), 4> {
    /// Builds a four-channel multiplexer from one analog input and two
    /// select lines. The cursor starts at channel 0 and every cached value
    /// at 0; the select lines keep whatever state their handles came with
    /// until the first `tick`.
    pub fn new_2(analog_pin: A, digital_pins: (D0, D1)) -> (r: Self)
        ensures
            r.wf(),
            r.current_index() == 0,
            r.channel_values() == initial_channels(4),
            r.analog() == analog_pin,
            r.selects() == digital_pins,
    {
        let r = Multiplexer {
            analog_pin,
            digital_pins,
            channels: [0u32; 4],
            index: 0u8,
            lines: Ghost(arbitrary()),
        };
        proof {
            assert(r.channels@ =~= initial_channels(4));
        }
        r
    }

    /// Advances the cursor by one channel, wrapping after the last, and
    /// drives select line `i` to bit `i` of the new cursor; the cached
    /// values and the analog handle are untouched.
    pub fn tick(&mut self)
        requires
            old(self).wf(),
        ensures
            final(self).wf(),
            final(self).current_index() == (old(self).current_index() + 1) % 4,
            final(self).line_levels() == select_levels(final(self).current_index(), 2),
            final(self).channel_values() == old(self).channel_values(),
            final(self).analog() == old(self).analog(),
    {
        self.index = (self.index + 1) % 4;
        let b0: bool = self.index & 1 == 1;
        let b1: bool = (self.index >> 1) & 1 == 1;
        set_line(&mut self.digital_pins.0, b0);
        set_line(&mut self.digital_pins.1, b1);
        proof {
            self.lines@ = seq![b0, b1];
            lemma2_to64();
            let i = self.index;
            assert(i & 1 == 1 <==> i % 2 == 1) by (bit_vector);
            assert((i >> 1) & 1 == 1 <==> (i / 2) % 2 == 1) by (bit_vector);
            assert(self.lines@.len() == select_levels(i as nat, 2).len());
            assert(self.lines@[0] == line_level(i as nat, 0));
            assert(self.lines@[1] == line_level(i as nat, 1));
            assert(self.lines@ =~= select_levels(self.index as nat, 2));
        }
    }
}

impl<A, D0: OutputPin, D1: OutputPin, D2: OutputPin> Multiplexer<A, (D0, D1, D2), 8> {
    /// Builds an eight-channel multiplexer from one analog input and three
    /// select lines. The cursor starts at channel 0 and every cached value
    /// at 0; the select lines keep whatever state their handles came with
    /// until the first `tick`.
    pub fn new_3(analog_pin: A, digital_pins: (D0, D1, D2)) -> (r: Self)
        ensures
            r.wf(),
            r.current_index() == 0,
            r.channel_values() == initial_channels(8),
            r.analog() == analog_pin,
            r.selects() == digital_pins,
    {
        let r = Multiplexer {
            analog_pin,
            digital_pins,
            channels: [0u32; 8],
            index: 0u8,
            lines: Ghost(arbitrary()),
        };
        proof {
            assert(r.channels@ =~= initial_channels(8));
        }
        r
    }

    /// Advances the cursor by one channel, wrapping after the last, and
    /// drives select line `i` to bit `i` of the new cursor; the cached
    /// values and the analog handle are untouched.
    pub fn tick(&mut self)
        requires
            old(self).wf(),
        ensures
            final(self).wf(),
            final(self).current_index() == (old(self).current_index() + 1) % 8,
            final(self).line_levels() == select_levels(final(self).current_index(), 3),
            final(self).channel_values() == old(self).channel_values(),
            final(self).analog() == old(self).analog(),
    {
        self.index = (self.index + 1) % 8;
        let b0: bool = self.index & 1 == 1;
        let b1: bool = (self.index >> 1) & 1 == 1;
        let b2: bool = (self.index >> 2) & 1 == 1;
        set_line(&mut self.digital_pins.0, b0);
        set_line(&mut self.digital_pins.1, b1);
        set_line(&mut self.digital_pins.2, b2);
        proof {
            self.lines@ = seq![b0, b1, b2];
            lemma2_to64();
            let i = self.index;
            assert(i & 1 == 1 <==> i % 2 == 1) by (bit_vector);
            assert((i >> 1) & 1 == 1 <==> (i / 2) % 2 == 1) by (bit_vector);
            assert((i >> 2) & 1 == 1 <==> (i / 4) % 2 == 1) by (bit_vector);
            assert(self.lines@.len() == select_levels(i as nat, 3).len());
            assert(self.lines@[0] == line_level(i as nat, 0));
            assert(self.lines@[1] == line_level(i as nat, 1));
            assert(self.lines@[2] == line_level(i as nat, 2));
            assert(self.lines@ =~= select_levels(self.index as nat, 3));
        }
    }
}

/// The cursor of a `count`-channel multiplexer after `k` ticks from cursor
/// `start`: each tick advances it by one, modulo the channel count, exactly
/// as the `ensures` of `tick` states for a single call.
pub open spec fn index_after_ticks(start: nat, k: nat, count: nat) -> nat
    decreases k,
{
    if k == 0 {
        start
    } else {
        (index_after_ticks(start, (k - 1) as nat, count) + 1) % count
    }
}

/// Repeated ticking is addition modulo the channel count: after `k` ticks
/// from cursor `start`, the cursor reads `(start + k) % count`.
pub proof fn lemma_index_after_ticks(start: nat, k: nat, count: nat)
    requires
        1 < count,
        start < count,
    ensures
        index_after_ticks(start, k, count) == (start + k) % count,
    decreases k,
{
    if k == 0 {
        lemma_small_mod(start, count);
    } else {
        lemma_index_after_ticks(start, (k - 1) as nat, count);
        lemma_add_mod_noop(start + k - 1, 1, count as int);
        lemma_small_mod(1, count);
    }
}

/// For every channel count and every number of ticks, the cursor after `k`
/// ticks from channel 0 reads `k` modulo the channel count.
pub proof fn lemma_cursor_after_ticks_from_zero(k: nat, count: nat)
    requires
        1 < count,
    ensures
        index_after_ticks(0, k, count) == k % count,
{
    lemma_index_after_ticks(0, k, count);
}

/// Round trip: cycling through exactly `count` ticks returns the cursor to
/// its starting value, so the select lines — which encode the cursor after
/// every tick — read the same pattern as before the cycle.
pub proof fn lemma_full_cycle(start: nat, count: nat, lines: nat)
    requires
        1 < count,
        start < count,
    ensures
        index_after_ticks(start, count, count) == start,
        select_levels(index_after_ticks(start, count, count), lines)
            == select_levels(start, lines),
{
    lemma_index_after_ticks(start, count, count);
    lemma_mod_add_multiples_vanish(start as int, count as int);
    lemma_small_mod(start, count);
}

/// A freshly constructed multiplexer reports `count` cached values, all
/// equal to the initial sentinel 0.
pub proof fn lemma_initial_channels_zero(count: nat)
    ensures
        initial_channels(count).len() == count,
        forall|i: int| 0 <= i < count ==> initial_channels(count)[i] == 0u32,
{
}

/// The first `update(v)` after construction — before any tick, so with the
/// cursor still at channel 0 — stores `v` at channel 0 and leaves every
/// other channel at the initial sentinel 0.
pub proof fn lemma_first_update(count: nat, v: u32)
    requires
        0 < count,
    ensures
        initial_channels(count).update(0, v)[0] == v,
        forall|i: int| 1 <= i < count ==> initial_channels(count).update(0, v)[i] == 0u32,
{
}

/// Reading the cached values is idempotent: two `channels()` calls on the
/// same multiplexer, with no `update` or `tick` between them, see the same
/// sequence.
pub proof fn lemma_channels_idempotent<A, D, const LENGTH: usize>(
    m: &Multiplexer<A, D, LENGTH>,
    r1: Seq<u32>,
    r2: Seq<u32>,
)
    requires
        r1 == m.channel_values(),
        r2 == m.channel_values(),
    ensures
        r1 == r2,
{
}

} // verus!
