//! A plain delay: the sample recorded a whole number of beats ago.
use vstd::prelude::*;
use crate::tap::{Gain, Tap};

verus! {

/// The abstract state of a [`Delay`].
pub struct DelayState {
    pub samples_per_beat: i32,
    /// How far back, in samples, the delay reads.
    pub jump: i32,
    pub back_fade_in: i32,
    pub back_fade_out: i32,
}

/// Whether `Delay::new(samples_per_beat, beats_per_repeat)` stays within `i32`.
pub open spec fn delay_params_fit(samples_per_beat: usize, beats_per_repeat: usize) -> bool {
    let samps = samples_per_beat as i32;
    &&& i32::MIN <= samps * (beats_per_repeat as i32) <= i32::MAX
    &&& i32::MIN + 101 <= samps
}

/// The state `Delay::new(samples_per_beat, beats_per_repeat)` makes.
pub open spec fn delay_init(samples_per_beat: usize, beats_per_repeat: usize) -> DelayState {
    let samps = samples_per_beat as i32;
    DelayState {
        samples_per_beat: samps,
        jump: (samps * (beats_per_repeat as i32)) as i32,
        back_fade_in: (samps - 100) as i32,
        back_fade_out: (-samps + 100) as i32,
    }
}

/// Whether reading at sample `index` stays within `i32`.
pub open spec fn delay_can_read(s: DelayState, index: usize) -> bool {
    i32::MIN <= (index as i32) - s.jump <= i32::MAX
}

/// What a [`Delay`] in state `s` plays at sample `index`.
pub open spec fn delay_tap(s: DelayState, index: usize) -> Tap {
    let back = (index as i32) - s.jump;
    if back >= 0 {
        Tap::Read { position: back as usize, gain: Gain::Full }
    } else {
        Tap::Silent
    }
}

/// Plays back what was recorded `beats_per_repeat` beats earlier.
pub struct Delay {
    samples_per_beat: i32,
    jump: i32,
    back_fade_in: i32,
    back_fade_out: i32,
}

impl View for Delay {
    type V = DelayState;

    closed spec fn view(&self) -> DelayState {
        DelayState {
            samples_per_beat: self.samples_per_beat,
            jump: self.jump,
            back_fade_in: self.back_fade_in,
            back_fade_out: self.back_fade_out,
        }
    }
}

impl Delay {
    /// A delay of `beats_per_repeat` beats of `samples_per_beat` samples
    /// (both taken as `i32`, as the arithmetic is done in `i32`).
    pub fn new(samples_per_beat: usize, beats_per_repeat: usize) -> (delay: Self)
        requires
            delay_params_fit(samples_per_beat, beats_per_repeat),
        ensures
            delay@ == delay_init(samples_per_beat, beats_per_repeat),
    {
        let samps = #[verifier::truncate] (samples_per_beat as i32);
        let fade2: i32 = 100;
        Delay {
            samples_per_beat: samps,
            jump: samps * #[verifier::truncate] (beats_per_repeat as i32),
            back_fade_in: samps - fade2,
            back_fade_out: -samps + fade2,
        }
    }

    /// Whether sample `index` can be read without leaving `i32`.
    pub fn can_read(&self, index: usize) -> (r: bool)
        ensures
            r == delay_can_read(self@, index),
    {
        let i = #[verifier::truncate] (index as i32);
        if self.jump >= 0 {
            i >= i32::MIN + self.jump
        } else {
            i <= i32::MAX + self.jump
        }
    }

    /// The output for sample `index`: the recording `jump` samples back, or
    /// silence before the recording reaches that far.
    pub fn process_sample(&mut self, index: usize) -> (tap: Tap)
        requires
            delay_can_read(old(self)@, index),
        ensures
            tap == delay_tap(old(self)@, index),
            final(self)@ == old(self)@,
    {
        let i2 = #[verifier::truncate] (index as i32) - self.jump;
        if i2 >= 0 {
            Tap::Read { position: i2 as usize, gain: Gain::Full }
        } else {
            Tap::Silent
        }
    }
}

/// A delay of exactly `jump` samples at every sample: silent while the
/// sample is less than `jump` into the recording, and from then on, however
/// far in, the recording exactly `jump` samples back at full level.
pub proof fn lemma_delay_is_exactly_jump_back(s: DelayState, index: usize)
    requires
        delay_can_read(s, index),
    ensures
        delay_tap(s, index) == Tap::Silent <==> (index as i32) < s.jump,
        delay_tap(s, index) matches Tap::Read { position, gain } ==> {
            &&& position == (index as i32) - s.jump
            &&& gain == Gain::Full
        },
        (index <= i32::MAX && 0 <= s.jump <= index) ==> delay_tap(s, index) == (Tap::Read {
            position: (index - s.jump) as usize,
            gain: Gain::Full,
        }),
{
}

} // verus!
