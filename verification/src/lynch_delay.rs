//! A delay that plays each repeat backwards, at double speed through the beat.
use vstd::prelude::*;
use crate::tap::{FADE_SAMPLE_COUNT, Gain, Tap, gain_at_most_full};
use crate::delay::delay_params_fit;

verus! {

/// Length of each fade in read-head units: the head runs back two units per
/// sample, so a fade lasts `FADE_SAMPLE_COUNT` samples.
pub const BACK_FADE_UNITS: usize = 2 * FADE_SAMPLE_COUNT;

/// The abstract state of a [`LynchDelay`].
pub struct LynchDelayState {
    pub samples_per_beat: i32,
    /// How far back, in samples, a repeat starts.
    pub jump: i32,
    /// Offset of the read head inside the current beat; it runs backwards.
    pub back: i32,
    pub back_fade_in: i32,
    pub back_fade_out: i32,
}

/// The state `LynchDelay::new(samples_per_beat, beats_per_repeat)` makes.
pub open spec fn lynch_init(samples_per_beat: usize, beats_per_repeat: usize) -> LynchDelayState {
    let samps = samples_per_beat as i32;
    LynchDelayState {
        samples_per_beat: samps,
        jump: (samps * (beats_per_repeat as i32)) as i32,
        back: (samps - 1) as i32,
        back_fade_in: (samps - 100) as i32,
        back_fade_out: (-samps + 100) as i32,
    }
}

/// The invariant of a [`LynchDelay`].
pub open spec fn lynch_wf(s: LynchDelayState) -> bool {
    &&& i32::MIN + 101 <= s.samples_per_beat
    &&& s.back_fade_in == s.samples_per_beat - 100
    &&& s.back_fade_out == -s.samples_per_beat + 100
    &&& s.back < s.samples_per_beat
    &&& s.samples_per_beat >= 1 ==> -s.samples_per_beat - 1 <= s.back
}

/// Whether sample `index` can be processed without leaving `i32`.
pub open spec fn lynch_can_read(s: LynchDelayState, index: usize) -> bool {
    &&& i32::MIN <= (index as i32) - s.jump <= i32::MAX
    &&& i32::MIN <= (index as i32) - s.jump + s.back <= i32::MAX
}

/// The read head runs back two units per sample, so the fades, over the
/// last and first `2 * FADE_SAMPLE_COUNT` units of a beat, last
/// `FADE_SAMPLE_COUNT` samples and are measured in those units.
///
/// The fade for a read head at `back`, and the head after it is moved on.
pub open spec fn lynch_gain(s: LynchDelayState) -> (Gain, i32) {
    if s.back <= -s.samples_per_beat {
        (Gain::Muted, (s.samples_per_beat - 1 - 2) as i32)
    } else if s.back > s.back_fade_in {
        (
            Gain::Fraction {
                numerator: (s.samples_per_beat - s.back) as usize,
                denominator: BACK_FADE_UNITS,
            },
            (s.back - 2) as i32,
        )
    } else if s.back < s.back_fade_out {
        (
            Gain::Fraction {
                numerator: (s.back + s.samples_per_beat) as usize,
                denominator: BACK_FADE_UNITS,
            },
            (s.back - 2) as i32,
        )
    } else {
        (Gain::Full, (s.back - 2) as i32)
    }
}

/// One sample through a [`LynchDelay`] in state `s`: the next state and the output.
pub open spec fn lynch_step(s: LynchDelayState, index: usize) -> (LynchDelayState, Tap) {
    let i2 = (index as i32) - s.jump + s.back;
    if i2 >= 0 {
        let (gain, back) = lynch_gain(s);
        (LynchDelayState { back, ..s }, Tap::Read { position: i2 as usize, gain })
    } else {
        (s, Tap::Silent)
    }
}

/// Replays each beat of the repeat backwards.
pub struct LynchDelay {
    samples_per_beat: i32,
    jump: i32,
    back: i32,
    back_fade_in: i32,
    back_fade_out: i32,
}

impl View for LynchDelay {
    type V = LynchDelayState;

    closed spec fn view(&self) -> LynchDelayState {
        LynchDelayState {
            samples_per_beat: self.samples_per_beat,
            jump: self.jump,
            back: self.back,
            back_fade_in: self.back_fade_in,
            back_fade_out: self.back_fade_out,
        }
    }
}

impl LynchDelay {
    /// A reversing delay of `beats_per_repeat` beats of `samples_per_beat`
    /// samples (both taken as `i32`).
    pub fn new(samples_per_beat: usize, beats_per_repeat: usize) -> (delay: Self)
        requires
            delay_params_fit(samples_per_beat, beats_per_repeat),
        ensures
            delay@ == lynch_init(samples_per_beat, beats_per_repeat),
            lynch_wf(delay@),
    {
        let samps = #[verifier::truncate] (samples_per_beat as i32);
        let fade2: i32 = 100;
        LynchDelay {
            samples_per_beat: samps,
            jump: samps * #[verifier::truncate] (beats_per_repeat as i32),
            back: samps - 1,
            back_fade_in: samps - fade2,
            back_fade_out: -samps + fade2,
        }
    }

    /// Whether sample `index` can be processed without leaving `i32`.
    pub fn can_read(&self, index: usize) -> (r: bool)
        ensures
            r == lynch_can_read(self@, index),
    {
        let i = #[verifier::truncate] (index as i32);
        let i1: i64 = i as i64 - self.jump as i64;
        let i2: i64 = i1 + self.back as i64;
        i32::MIN as i64 <= i1 && i1 <= i32::MAX as i64 && i32::MIN as i64 <= i2 && i2
            <= i32::MAX as i64
    }

    /// The output for sample `index`, moving the read head back by two.
    pub fn process_sample(&mut self, index: usize) -> (tap: Tap)
        requires
            lynch_wf(old(self)@),
            lynch_can_read(old(self)@, index),
        ensures
            (final(self)@, tap) == lynch_step(old(self)@, index),
            lynch_wf(final(self)@),
    {
        let i2 = #[verifier::truncate] (index as i32) - self.jump + self.back;
        if i2 >= 0 {
            let mut gain = Gain::Full;
            if self.back <= -self.samples_per_beat {
                self.back = self.samples_per_beat - 1;
                gain = Gain::Muted;
            } else if self.back > self.back_fade_in {
                gain = Gain::Fraction {
                    numerator: (self.samples_per_beat - self.back) as usize,
                    denominator: BACK_FADE_UNITS,
                };
            } else if self.back < self.back_fade_out {
                gain = Gain::Fraction {
                    numerator: (self.back + self.samples_per_beat) as usize,
                    denominator: BACK_FADE_UNITS,
                };
            }
            self.back = self.back - 2;
            Tap::Read { position: i2 as usize, gain }
        } else {
            Tap::Silent
        }
    }
}

/// Between two wraps the repeat is played backwards: when two consecutive
/// samples are both read and the head did not wrap, the second reads the
/// recording one sample earlier than the first.  (The head wraps when it has
/// run back a whole beat; `s.back > -s.samples_per_beat` says it does not
/// wrap on the first of the two samples.)
pub proof fn lemma_lynch_plays_backwards(s: LynchDelayState, index: usize)
    requires
        lynch_wf(s),
        index < usize::MAX,
        (index as i32) < i32::MAX,
        lynch_can_read(s, index),
        lynch_can_read(lynch_step(s, index).0, (index + 1) as usize),
        lynch_step(s, index).1 matches Tap::Read { position, .. } && position >= 1,
        s.back > -s.samples_per_beat,
    ensures
        lynch_step(lynch_step(s, index).0, (index + 1) as usize).1 matches Tap::Read {
            position: p2,
            ..
        } && lynch_step(s, index).1 matches Tap::Read { position: p1, .. } && p2 == p1 - 1,
{
    let next = (index + 1) as usize;
    assert((next as i32) == (index as i32) + 1) by (bit_vector)
        requires
            next == index + 1,
            (index as i32) < i32::MAX,
    ;
    let i2 = (index as i32) - s.jump + s.back;
    let s1 = lynch_step(s, index).0;
    assert(s1.back == s.back - 2);
    assert((next as i32) - s1.jump + s1.back == i2 - 1);
}

/// The reversing delay never makes a sample louder: each fade rises from
/// silence to full level, and the wrap mutes.
pub proof fn lemma_lynch_gain_at_most_full(s: LynchDelayState, index: usize)
    requires
        lynch_wf(s),
    ensures
        lynch_step(s, index).1 matches Tap::Read { gain, .. } ==> gain_at_most_full(gain),
{
}

/// One sample through a reversing delay: it reads the recording `jump - back`
/// samples back, which, with a repeat of at least a beat, is strictly before
/// the current sample; the head runs back by two, wrapping (muted) to
/// `samples_per_beat - 3` once it has run back a whole beat, and stays within
/// `-samples_per_beat - 1 ..= samples_per_beat - 1`.
pub proof fn lemma_lynch_reads_the_past(s: LynchDelayState, index: usize)
    requires
        lynch_wf(s),
        lynch_can_read(s, index),
        s.jump >= s.samples_per_beat >= 1,
    ensures
        lynch_step(s, index).1 matches Tap::Read { position, gain } ==> {
            &&& position == (index as i32) - s.jump + s.back
            &&& 0 <= position < (index as i32)
            &&& (s.back <= -s.samples_per_beat <==> gain == Gain::Muted)
        },
        lynch_step(s, index).1 is Read ==> lynch_step(s, index).0.back == if s.back
            <= -s.samples_per_beat {
            s.samples_per_beat - 3
        } else {
            s.back - 2
        },
        -s.samples_per_beat - 1 <= lynch_step(s, index).0.back <= s.samples_per_beat - 1,
{
}

} // verus!
