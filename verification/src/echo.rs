//! An echo: a delay line of a fixed number of samples, kept in a ring buffer.
//!
//! Samples are carried as the bit patterns of their `f32` values.
use vstd::prelude::*;
use crate::ring::{Ring, new_ring, ring_capacity, ring_is_full, ring_items, ring_pop, ring_push, split_ring};

verus! {

/// `n` silent samples (the bits of `0.0f32` are all zero).
pub open spec fn silence(n: nat) -> Seq<u32> {
    Seq::new(n, |i: int| 0u32)
}

/// One sample through a delay line holding `line`: the line afterwards and
/// the sample that comes out.
pub open spec fn echo_step(line: Seq<u32>, input: u32) -> (Seq<u32>, u32) {
    (line.push(input).drop_first(), line.push(input)[0])
}

/// What a delay line holding `line` puts out for `inputs`, one by one: what
/// successive calls of `Echo::process_sample`, each one `echo_step`, return.
pub open spec fn echo_run(line: Seq<u32>, inputs: Seq<u32>) -> Seq<u32>
    decreases inputs.len(),
{
    if inputs.len() == 0 {
        Seq::empty()
    } else {
        let (next, out) = echo_step(line, inputs[0]);
        seq![out] + echo_run(next, inputs.drop_first())
    }
}

/// The number of samples `Echo::new(latency_frames, channels)` delays by.
pub open spec fn echo_latency(latency_frames: usize, channels: i32) -> int {
    latency_frames * (channels as usize)
}

/// Whether `Echo::new(latency_frames, channels)` stays within the machine.
pub open spec fn echo_params_fit(latency_frames: usize, channels: i32) -> bool {
    let samples = echo_latency(latency_frames, channels);
    &&& samples * 2 < usize::MAX
    &&& (samples * 2 + 1) * 4 <= isize::MAX
}

/// A delay line that plays each sample again a fixed number of samples later.
pub struct Echo {
    ring: Ring,
}

impl View for Echo {
    type V = Seq<u32>;

    /// The samples in the delay line, oldest first.
    closed spec fn view(&self) -> Seq<u32> {
        ring_items(self.ring)
    }
}

impl Echo {
    /// How many samples the ring behind this echo holds at most.
    pub closed spec fn capacity(&self) -> nat {
        ring_capacity(self.ring)
    }

    /// An echo delaying by `latency_frames` frames of `channels` samples,
    /// primed with silence; its ring has room for twice the delay.
    pub fn new(latency_frames: usize, channels: i32) -> (echo: Self)
        requires
            echo_params_fit(latency_frames, channels),
        ensures
            echo@ == silence(echo_latency(latency_frames, channels) as nat),
            echo.capacity() == 2 * echo_latency(latency_frames, channels),
    {
        let latency_samples = latency_frames * #[verifier::truncate] (channels as usize);
        let ring = new_ring(latency_samples * 2);
        let mut ring = split_ring(ring);
        for i in 0..latency_samples
            invariant
                ring_items(ring) == silence(i as nat),
                ring_capacity(ring) == latency_samples * 2,
        {
            let pushed = ring_push(&mut ring, 0u32);
            assert(pushed is Ok);
            assert(ring_items(ring) =~= silence((i + 1) as nat));
        }
        Echo { ring }
    }

    /// Whether `Echo::new(latency_frames, channels)` stays within the machine.
    pub fn fits(latency_frames: usize, channels: i32) -> (r: bool)
        ensures
            r == echo_params_fit(latency_frames, channels),
    {
        let ch = #[verifier::truncate] (channels as usize);
        if ch != 0 && latency_frames > usize::MAX / ch {
            proof {
                assert(latency_frames * ch > usize::MAX) by (nonlinear_arith)
                    requires
                        ch != 0,
                        latency_frames > usize::MAX / ch,
                ;
            }
            return false;
        }
        proof {
            if ch != 0 {
                assert(latency_frames * ch <= usize::MAX) by (nonlinear_arith)
                    requires
                        ch != 0,
                        latency_frames <= usize::MAX / ch,
                ;
            } else {
                assert(latency_frames * ch == 0) by (nonlinear_arith)
                    requires
                        ch == 0,
                ;
            }
        }
        let samples = latency_frames * ch;
        if samples > usize::MAX / 2 {
            return false;
        }
        let doubled = samples * 2;
        doubled < usize::MAX && doubled < (isize::MAX as usize) / 4
    }

    /// Whether the delay line has room for the next sample, which
    /// `process_sample` needs.
    pub fn has_room(&self) -> (r: bool)
        ensures
            r == (self@.len() < self.capacity()),
    {
        !ring_is_full(&self.ring)
    }

    /// Puts `input` into the delay line and returns the oldest sample in it.
    pub fn process_sample(&mut self, input: u32) -> (out: u32)
        requires
            old(self)@.len() < old(self).capacity(),
        ensures
            (final(self)@, out) == echo_step(old(self)@, input),
            final(self).capacity() == old(self).capacity(),
    {
        let pushed = ring_push(&mut self.ring, input);
        assert(pushed is Ok);
        let popped = ring_pop(&mut self.ring);
        match popped {
            Some(sample) => sample,
            None => {
                assert(false);
                0
            },
        }
    }
}

/// A delay line puts out what it holds, then its input: it is a delay of
/// exactly as many samples as it holds.
pub proof fn lemma_echo_delays(line: Seq<u32>, inputs: Seq<u32>)
    ensures
        echo_run(line, inputs) == (line + inputs).take(inputs.len() as int),
    decreases inputs.len(),
{
    if inputs.len() > 0 {
        let (next, out) = echo_step(line, inputs[0]);
        lemma_echo_delays(next, inputs.drop_first());
        assert(next + inputs.drop_first() =~= (line + inputs).drop_first());
        assert(out == (line + inputs)[0]);
        assert(seq![out] + (line + inputs).drop_first().take(inputs.len() - 1) =~= (line
            + inputs).take(inputs.len() as int));
    } else {
        assert((line + inputs).take(0) =~= Seq::<u32>::empty());
    }
}

/// A delay line never grows: with room for twice its delay, as `Echo::new`
/// makes it, every sample can be pushed.
pub proof fn lemma_echo_keeps_its_length(line: Seq<u32>, input: u32)
    ensures
        echo_step(line, input).0.len() == line.len(),
{
}

/// An echo made with a latency of `n` samples plays silence for the first
/// `n` samples and then every input `n` samples after it came in.
pub proof fn lemma_echo_new_delays_by_latency(n: nat, inputs: Seq<u32>, j: int)
    requires
        0 <= j < inputs.len(),
    ensures
        echo_run(silence(n), inputs)[j] == if j < n {
            0u32
        } else {
            inputs[j - n]
        },
{
    lemma_echo_delays(silence(n), inputs);
}

/// Successive calls of `Echo::process_sample` play `echo_run`: when each
/// call turns the delay line `lines[j]` and input `inputs[j]` into the line
/// `lines[j + 1]` and output `outputs[j]`, as its contract says, the outputs
/// are `echo_run(lines[0], inputs)`.  With `lemma_echo_new_delays_by_latency`
/// a new echo of latency `n` plays `n` silent samples and then its input `n`
/// samples late.
pub proof fn lemma_echo_calls_run(lines: Seq<Seq<u32>>, inputs: Seq<u32>, outputs: Seq<u32>)
    requires
        lines.len() == inputs.len() + 1,
        outputs.len() == inputs.len(),
        forall|j: int|
            0 <= j < inputs.len() ==> (lines[j + 1], outputs[j]) == echo_step(
                #[trigger] lines[j],
                inputs[j],
            ),
    ensures
        outputs == echo_run(lines[0], inputs),
    decreases inputs.len(),
{
    if inputs.len() > 0 {
        let rest_lines = lines.drop_first();
        assert forall|j: int| 0 <= j < inputs.drop_first().len() implies (rest_lines[j + 1],
            outputs.drop_first()[j]) == echo_step(
            #[trigger] rest_lines[j],
            inputs.drop_first()[j],
        ) by {
            assert(rest_lines[j] == lines[j + 1]);
        }
        assert((lines[1], outputs[0]) == echo_step(lines[0], inputs[0]));
        lemma_echo_calls_run(rest_lines, inputs.drop_first(), outputs.drop_first());
        assert(outputs =~= seq![outputs[0]] + outputs.drop_first());
    } else {
        assert(outputs =~= Seq::<u32>::empty());
    }
}

} // verus!
