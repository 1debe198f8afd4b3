//! A streaming echo whose ring holds exactly one period of the lowest pitch.
//!
//! Samples are carried as the bit patterns of their `f32` values.
use vstd::prelude::*;
use crate::echo::{echo_run, echo_step, lemma_echo_delays, silence};
use crate::ring::{Ring, new_ring, ring_capacity, ring_items, ring_pop, ring_push, split_ring};

verus! {

/// Samples in one period of the lowest pitch played (30 Hz, a low B) at
/// 44.1 kHz on two channels: 44100 / 30 * 2.
pub const LATENCY_SAMPLES: usize = 2940;

/// One sample through a streaming echo holding `line` in a ring of
/// `capacity`: the input is dropped when the ring is full, then the oldest
/// sample comes out.
pub open spec fn streamer_step(line: Seq<u32>, capacity: nat, input: u32) -> (Seq<u32>, u32) {
    let pushed = if line.len() < capacity {
        line.push(input)
    } else {
        line
    };
    (pushed.drop_first(), pushed[0])
}

/// What a streaming echo holding `line` in a ring of `capacity` puts out for
/// `inputs`, one by one.
pub open spec fn streamer_run(line: Seq<u32>, capacity: nat, inputs: Seq<u32>) -> Seq<u32>
    decreases inputs.len(),
{
    if inputs.len() == 0 {
        Seq::empty()
    } else {
        let (next, out) = streamer_step(line, capacity, inputs[0]);
        seq![out] + streamer_run(next, capacity, inputs.drop_first())
    }
}

/// An echo that streams its input through a full ring of `LATENCY_SAMPLES`.
pub struct Echo {
    ring: Ring,
}

impl View for Echo {
    type V = Seq<u32>;

    /// The samples in the ring, oldest first.
    closed spec fn view(&self) -> Seq<u32> {
        ring_items(self.ring)
    }
}

impl Echo {
    /// How many samples the ring holds at most.
    pub closed spec fn capacity(&self) -> nat {
        ring_capacity(self.ring)
    }

    /// A streaming echo whose ring is full of silence.
    pub fn new() -> (echo: Self)
        ensures
            echo@ == silence(LATENCY_SAMPLES as nat),
            echo.capacity() == LATENCY_SAMPLES,
    {
        let ring = new_ring(LATENCY_SAMPLES);
        let mut ring = split_ring(ring);
        for i in 0..LATENCY_SAMPLES
            invariant
                ring_items(ring) == silence(i as nat),
                ring_capacity(ring) == LATENCY_SAMPLES,
        {
            let pushed = ring_push(&mut ring, 0u32);
            assert(pushed is Ok);
            assert(ring_items(ring) =~= silence((i + 1) as nat));
        }
        Echo { ring }
    }

    /// Offers `input` to the ring (it is dropped when the ring is full) and
    /// returns the oldest sample.
    pub fn process_sample(&mut self, input: u32) -> (out: u32)
        requires
            old(self).capacity() >= 1,
        ensures
            (final(self)@, out) == streamer_step(old(self)@, old(self).capacity(), input),
            final(self).capacity() == old(self).capacity(),
    {
        let _ = ring_push(&mut self.ring, input);
        let popped = ring_pop(&mut self.ring);
        match popped {
            Some(sample) => sample,
            None => {
                assert(false);
                0
            },
        }
    }
}

/// While the ring has room, a streaming echo is a plain delay line.
pub proof fn lemma_streamer_with_room_delays(line: Seq<u32>, capacity: nat, inputs: Seq<u32>)
    requires
        line.len() < capacity,
    ensures
        streamer_run(line, capacity, inputs) == echo_run(line, inputs),
    decreases inputs.len(),
{
    if inputs.len() > 0 {
        let (next, _) = echo_step(line, inputs[0]);
        lemma_streamer_with_room_delays(next, capacity, inputs.drop_first());
    }
}

/// A fresh streaming echo loses its first input (the ring is full) and
/// plays every later input `LATENCY_SAMPLES - 1` samples after it came in;
/// before that it plays silence.
pub proof fn lemma_streamer_new_drops_first_input(inputs: Seq<u32>)
    requires
        inputs.len() >= 1,
    ensures
        streamer_run(silence(LATENCY_SAMPLES as nat), LATENCY_SAMPLES as nat, inputs) == (silence(
            LATENCY_SAMPLES as nat,
        ) + inputs.drop_first()).take(inputs.len() as int),
{
    let full = silence(LATENCY_SAMPLES as nat);
    let (next, out) = streamer_step(full, LATENCY_SAMPLES as nat, inputs[0]);
    assert(next =~= silence((LATENCY_SAMPLES - 1) as nat));
    lemma_streamer_with_room_delays(next, LATENCY_SAMPLES as nat, inputs.drop_first());
    lemma_echo_delays(next, inputs.drop_first());
    assert(seq![out] + (next + inputs.drop_first()).take(inputs.len() - 1) =~= (full
        + inputs.drop_first()).take(inputs.len() as int));
}

} // verus!
