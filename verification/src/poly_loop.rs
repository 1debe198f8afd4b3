//! Two loops of different lengths played over each other.
use vstd::prelude::*;
use vstd::arithmetic::div_mod::lemma_fundamental_div_mod_converse;
use crate::tap::{FADE_SAMPLE_COUNT, Tap, fade_in_span, gain_at_most_full, span_fade};

verus! {

/// The abstract state of a [`PolyLoop`].
pub struct PolyLoopState {
    pub samples_per_beat: usize,
    pub beats_per_repeat_1: usize,
    pub beats_per_repeat_2: usize,
    pub samples_per_bar_1: usize,
    pub samples_per_bar_2: usize,
    /// Position in the first loop.
    pub index_1: usize,
    /// Position in the second loop.
    pub index_2: usize,
    pub fade_out_1: usize,
    pub fade_out_2: usize,
}

/// Whether `PolyLoop::new` with these lengths stays within `usize`.
pub open spec fn poly_loop_params_fit(
    samples_per_beat: usize,
    beats_per_repeat_1: usize,
    beats_per_repeat_2: usize,
) -> bool {
    &&& FADE_SAMPLE_COUNT <= samples_per_beat * beats_per_repeat_1 <= usize::MAX
    &&& FADE_SAMPLE_COUNT <= samples_per_beat * beats_per_repeat_2 <= usize::MAX
}

/// The state `PolyLoop::new` makes.
pub open spec fn poly_loop_init(
    samples_per_beat: usize,
    beats_per_repeat_1: usize,
    beats_per_repeat_2: usize,
) -> PolyLoopState {
    PolyLoopState {
        samples_per_beat,
        beats_per_repeat_1,
        beats_per_repeat_2,
        samples_per_bar_1: (samples_per_beat * beats_per_repeat_1) as usize,
        samples_per_bar_2: (samples_per_beat * beats_per_repeat_2) as usize,
        index_1: 0,
        index_2: 0,
        fade_out_1: (samples_per_beat * beats_per_repeat_1 - FADE_SAMPLE_COUNT) as usize,
        fade_out_2: (samples_per_beat * beats_per_repeat_2 - FADE_SAMPLE_COUNT) as usize,
    }
}

/// The invariant of a [`PolyLoop`].
pub open spec fn poly_loop_wf(s: PolyLoopState) -> bool {
    &&& s.samples_per_bar_1 == s.samples_per_beat * s.beats_per_repeat_1
    &&& s.samples_per_bar_2 == s.samples_per_beat * s.beats_per_repeat_2
    &&& s.samples_per_bar_1 >= FADE_SAMPLE_COUNT
    &&& s.samples_per_bar_2 >= FADE_SAMPLE_COUNT
    &&& s.fade_out_1 == s.samples_per_bar_1 - FADE_SAMPLE_COUNT
    &&& s.fade_out_2 == s.samples_per_bar_2 - FADE_SAMPLE_COUNT
    &&& s.index_1 < s.samples_per_bar_1
    &&& s.index_2 < s.samples_per_bar_2
}

/// One sample through a loop of `bar` samples standing at `position`: the
/// position afterwards and the output.  The loop sounds from sample `bar` on.
pub open spec fn loop_step(position: usize, bar: usize, fade_out: usize, index: usize) -> (
    usize,
    Tap,
) {
    if index >= bar {
        let gain = span_fade(position, bar, fade_out);
        let next = if position + 1 == bar {
            0usize
        } else {
            (position + 1) as usize
        };
        (next, Tap::Read { position: next, gain })
    } else {
        (position, Tap::Silent)
    }
}

/// One sample through a [`PolyLoop`] in state `s`: the next state and the
/// outputs of the two loops, which are played together.
pub open spec fn poly_loop_step(s: PolyLoopState, index: usize) -> (PolyLoopState, (Tap, Tap)) {
    let (index_1, tap_1) = loop_step(s.index_1, s.samples_per_bar_1, s.fade_out_1, index);
    let (index_2, tap_2) = loop_step(s.index_2, s.samples_per_bar_2, s.fade_out_2, index);
    (PolyLoopState { index_1, index_2, ..s }, (tap_1, tap_2))
}

/// Loops the start of the recording twice over, once `beats_per_repeat_1`
/// beats long and once `beats_per_repeat_2` beats long.
pub struct PolyLoop {
    samples_per_beat: usize,
    beats_per_repeat_1: usize,
    beats_per_repeat_2: usize,
    samples_per_bar_1: usize,
    samples_per_bar_2: usize,
    index_1: usize,
    index_2: usize,
    fade_out_1: usize,
    fade_out_2: usize,
}

impl View for PolyLoop {
    type V = PolyLoopState;

    closed spec fn view(&self) -> PolyLoopState {
        PolyLoopState {
            samples_per_beat: self.samples_per_beat,
            beats_per_repeat_1: self.beats_per_repeat_1,
            beats_per_repeat_2: self.beats_per_repeat_2,
            samples_per_bar_1: self.samples_per_bar_1,
            samples_per_bar_2: self.samples_per_bar_2,
            index_1: self.index_1,
            index_2: self.index_2,
            fade_out_1: self.fade_out_1,
            fade_out_2: self.fade_out_2,
        }
    }
}

/// Moves a loop of `bar` samples on from `position` and returns the output.
fn advance_loop(position: &mut usize, bar: usize, fade_out: usize, index: usize) -> (tap: Tap)
    requires
        *old(position) < bar,
    ensures
        (*final(position), tap) == loop_step(*old(position), bar, fade_out, index),
        *final(position) < bar,
{
    if index >= bar {
        let gain = fade_in_span(*position, bar, fade_out);
        *position = *position + 1;
        if *position == bar {
            *position = 0;
        }
        Tap::Read { position: *position, gain }
    } else {
        Tap::Silent
    }
}

impl PolyLoop {
    /// Two loops of `beats_per_repeat_1` and `beats_per_repeat_2` beats of
    /// `samples_per_beat` samples.
    pub fn new(samples_per_beat: usize, beats_per_repeat_1: usize, beats_per_repeat_2: usize) -> (delay: Self)
        requires
            poly_loop_params_fit(samples_per_beat, beats_per_repeat_1, beats_per_repeat_2),
        ensures
            delay@ == poly_loop_init(samples_per_beat, beats_per_repeat_1, beats_per_repeat_2),
            poly_loop_wf(delay@),
    {
        PolyLoop {
            samples_per_beat,
            beats_per_repeat_1,
            beats_per_repeat_2,
            samples_per_bar_1: samples_per_beat * beats_per_repeat_1,
            samples_per_bar_2: samples_per_beat * beats_per_repeat_2,
            index_1: 0,
            index_2: 0,
            fade_out_1: samples_per_beat * beats_per_repeat_1 - FADE_SAMPLE_COUNT,
            fade_out_2: samples_per_beat * beats_per_repeat_2 - FADE_SAMPLE_COUNT,
        }
    }

    /// The outputs of the two loops for sample `index`.
    pub fn process_sample(&mut self, index: usize) -> (taps: (Tap, Tap))
        requires
            poly_loop_wf(old(self)@),
        ensures
            (final(self)@, taps) == poly_loop_step(old(self)@, index),
            poly_loop_wf(final(self)@),
    {
        let tap_1 = advance_loop(&mut self.index_1, self.samples_per_bar_1, self.fade_out_1, index);
        let tap_2 = advance_loop(&mut self.index_2, self.samples_per_bar_2, self.fade_out_2, index);
        (tap_1, tap_2)
    }
}

/// Where a loop of `bar` samples stands once the samples `0..n` have gone
/// through it in order.
pub open spec fn loop_after(position: usize, bar: usize, n: nat) -> bool {
    position == if n <= bar {
        0
    } else {
        (n - bar) % (bar as int)
    }
}

/// Fed the samples `0, 1, 2, ..` in order, a loop of `bar` samples is
/// silent for the first `bar` samples and then plays the first `bar`
/// samples of the recording over and over: at sample `n` it plays
/// position `(n - bar + 1) % bar`.
pub proof fn lemma_loop_repeats_first_bar(position: usize, bar: usize, fade_out: usize, n: usize)
    requires
        bar >= 1,
        position < bar,
        loop_after(position, bar, n as nat),
    ensures
        loop_step(position, bar, fade_out, n).1 matches Tap::Read { position: p, .. } ==> p == (n
            - bar + 1) % (bar as int),
        n >= bar <==> loop_step(position, bar, fade_out, n).1 is Read,
        loop_after(loop_step(position, bar, fade_out, n).0, bar, n as nat + 1),
{
    if n >= bar {
        let m = n - bar;
        lemma_fundamental_div_mod_converse(0, bar as int, 0, 0);
        let q = m / (bar as int);
        vstd::arithmetic::div_mod::lemma_fundamental_div_mod(m, bar as int);
        assert(position == m % (bar as int));
        if position + 1 == bar {
            assert(m + 1 == (q + 1) * bar + 0) by (nonlinear_arith)
                requires
                    m == bar * q + position,
                    position + 1 == bar,
            ;
            lemma_fundamental_div_mod_converse(m + 1, bar as int, q + 1, 0);
        } else {
            assert(m + 1 == q * bar + (position + 1)) by (nonlinear_arith)
                requires
                    m == bar * q + position,
            ;
            lemma_fundamental_div_mod_converse(m + 1, bar as int, q, position + 1);
        }
    }
}

/// The [`loop_after`] picture holds for both loops of a new `PolyLoop`.
pub proof fn lemma_poly_loop_new_is_fresh(
    samples_per_beat: usize,
    beats_per_repeat_1: usize,
    beats_per_repeat_2: usize,
)
    ensures
        ({
            let s = poly_loop_init(samples_per_beat, beats_per_repeat_1, beats_per_repeat_2);
            loop_after(s.index_1, s.samples_per_bar_1, 0) && loop_after(
                s.index_2,
                s.samples_per_bar_2,
                0,
            )
        }),
{
}

/// Each loop of a `PolyLoop` runs on its own: once the sample reaches its
/// length, loop `k` moves on by one round its own `samples_per_bar_k`
/// samples and plays that position, faded against its own ends (ramping up
/// over its first and down over its last `FADE_SAMPLE_COUNT` samples), never
/// louder than full level; before that it is silent and does not move.
pub proof fn lemma_poly_loop_taps(s: PolyLoopState, index: usize)
    requires
        poly_loop_wf(s),
    ensures
        ({
            let (s2, (tap_1, tap_2)) = poly_loop_step(s, index);
            let bar_1 = s.samples_per_bar_1;
            let bar_2 = s.samples_per_bar_2;
            &&& index < bar_1 ==> tap_1 == Tap::Silent && s2.index_1 == s.index_1
            &&& index >= bar_1 ==> {
                &&& s2.index_1 == (s.index_1 + 1) % (bar_1 as int)
                &&& tap_1 == Tap::Read {
                    position: s2.index_1,
                    gain: span_fade(s.index_1, bar_1, (bar_1 - FADE_SAMPLE_COUNT) as usize),
                }
            }
            &&& index < bar_2 ==> tap_2 == Tap::Silent && s2.index_2 == s.index_2
            &&& index >= bar_2 ==> {
                &&& s2.index_2 == (s.index_2 + 1) % (bar_2 as int)
                &&& tap_2 == Tap::Read {
                    position: s2.index_2,
                    gain: span_fade(s.index_2, bar_2, (bar_2 - FADE_SAMPLE_COUNT) as usize),
                }
            }
            &&& tap_1 matches Tap::Read { gain, .. } ==> gain_at_most_full(gain)
            &&& tap_2 matches Tap::Read { gain, .. } ==> gain_at_most_full(gain)
        }),
{
    let b1 = s.samples_per_bar_1 as int;
    let b2 = s.samples_per_bar_2 as int;
    lemma_fundamental_div_mod_converse(
        s.index_1 + 1,
        b1,
        if s.index_1 + 1 == b1 {
            1
        } else {
            0
        },
        if s.index_1 + 1 == b1 {
            0
        } else {
            s.index_1 + 1
        },
    );
    lemma_fundamental_div_mod_converse(
        s.index_2 + 1,
        b2,
        if s.index_2 + 1 == b2 {
            1
        } else {
            0
        },
        if s.index_2 + 1 == b2 {
            0
        } else {
            s.index_2 + 1
        },
    );
    crate::tap::lemma_span_fade_shape(s.index_1, s.samples_per_bar_1, s.fade_out_1);
    crate::tap::lemma_span_fade_shape(s.index_2, s.samples_per_bar_2, s.fade_out_2);
}

} // verus!
