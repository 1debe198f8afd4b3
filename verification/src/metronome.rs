//! The metronome: a click at the start of every beat.
use vstd::prelude::*;

verus! {

/// Length of a click, in samples.
pub const CLICK_SAMPLES: usize = 512;

/// Samples over which a click swells in.
pub const CLICK_RISE: usize = 10;

/// Sample of the click after which it dies away (over the last 64 samples).
pub const CLICK_FALL: usize = 448;

/// The part of a click a sample falls in, with the sample's tick (its
/// number since the beat started), from which the tone's phase and the
/// envelope are computed.
#[derive(PartialEq, Eq, Structural, Debug, Clone, Copy)]
pub enum Click {
    /// Past the click: nothing sounds.
    Silent,
    /// The envelope rises as `tick / CLICK_RISE`.
    Rising(usize),
    /// The envelope is at full level.
    Steady(usize),
    /// The envelope falls as `1 - (tick - CLICK_FALL) / 64`.
    Falling(usize),
}

/// The part of the click at `tick` samples into the beat.
pub open spec fn click_at(tick: usize) -> Click {
    if tick < CLICK_SAMPLES {
        if tick < CLICK_RISE {
            Click::Rising(tick)
        } else if tick > CLICK_FALL {
            Click::Falling(tick)
        } else {
            Click::Steady(tick)
        }
    } else {
        Click::Silent
    }
}

/// Computes [`click_at`].
pub fn click_for_tick(tick: usize) -> (click: Click)
    ensures
        click == click_at(tick),
{
    if tick < CLICK_SAMPLES {
        if tick < CLICK_RISE {
            Click::Rising(tick)
        } else if tick > CLICK_FALL {
            Click::Falling(tick)
        } else {
            Click::Steady(tick)
        }
    } else {
        Click::Silent
    }
}

/// The tick after `tick` in beats of `samples_per_beat` samples.
pub open spec fn next_tick(tick: usize, samples_per_beat: usize) -> usize {
    if tick + 1 == samples_per_beat {
        0
    } else {
        (tick + 1) as usize
    }
}

/// The abstract state of a [`Metronome`].
pub struct MetronomeState {
    pub samples_per_beat: usize,
    /// Samples since the current beat started.
    pub tick: usize,
    pub channels: i32,
}

/// The number of samples in a beat of `frames_per_beat` frames of
/// `channels` samples.
pub open spec fn beat_samples(frames_per_beat: usize, channels: i32) -> int {
    frames_per_beat * (channels as usize)
}

/// Counts the samples of each beat and says which part of the click each
/// sample gets.
pub struct Metronome {
    samples_per_beat: usize,
    tick: usize,
    channels: i32,
}

impl View for Metronome {
    type V = MetronomeState;

    closed spec fn view(&self) -> MetronomeState {
        MetronomeState {
            samples_per_beat: self.samples_per_beat,
            tick: self.tick,
            channels: self.channels,
        }
    }
}

impl Metronome {
    /// A metronome for `channels` interleaved channels, with beats of
    /// `frames_per_beat` frames, at the start of a beat.
    pub fn new(frames_per_beat: usize, channels: i32) -> (metronome: Self)
        requires
            beat_samples(frames_per_beat, channels) <= usize::MAX,
        ensures
            metronome@ == (MetronomeState {
                samples_per_beat: beat_samples(frames_per_beat, channels) as usize,
                tick: 0,
                channels,
            }),
    {
        let mut metronome = Metronome { samples_per_beat: 0, tick: 0, channels };
        metronome.set_frames_per_beat(frames_per_beat);
        metronome
    }

    /// The number of samples in a beat.
    pub fn samples_per_beat(&self) -> (n: usize)
        ensures
            n == self@.samples_per_beat,
    {
        self.samples_per_beat
    }

    /// Samples since the current beat started.
    pub fn tick(&self) -> (n: usize)
        ensures
            n == self@.tick,
    {
        self.tick
    }

    /// Changes the tempo to beats of `frames_per_beat` frames; the count
    /// restarts when it is past the new beat length.
    pub fn set_frames_per_beat(&mut self, frames_per_beat: usize)
        requires
            beat_samples(frames_per_beat, old(self)@.channels) <= usize::MAX,
        ensures
            final(self)@ == (MetronomeState {
                samples_per_beat: beat_samples(frames_per_beat, old(self)@.channels) as usize,
                tick: if old(self)@.tick > beat_samples(frames_per_beat, old(self)@.channels) {
                    0
                } else {
                    old(self)@.tick
                },
                channels: old(self)@.channels,
            }),
    {
        self.samples_per_beat = frames_per_beat * #[verifier::truncate] (self.channels as usize);
        if self.tick > self.samples_per_beat {
            self.tick = 0;
        }
    }

    /// The part of the click for the next sample; moves the count on,
    /// restarting it at the end of the beat.
    pub fn next_click(&mut self) -> (click: Click)
        requires
            old(self)@.tick < usize::MAX,
        ensures
            click == click_at(old(self)@.tick),
            final(self)@ == (MetronomeState {
                tick: next_tick(old(self)@.tick, old(self)@.samples_per_beat),
                ..old(self)@
            }),
    {
        let click = click_for_tick(self.tick);
        self.tick = self.tick + 1;
        if self.tick == self.samples_per_beat {
            self.tick = 0;
        }
        click
    }
}

/// Inside a beat the count goes round: the tick after `tick` is
/// `(tick + 1) % samples_per_beat`, so the click sounds once every beat.
pub proof fn lemma_metronome_counts_round(tick: usize, samples_per_beat: usize)
    requires
        tick < samples_per_beat,
    ensures
        next_tick(tick, samples_per_beat) == (tick + 1) % (samples_per_beat as int),
        next_tick(tick, samples_per_beat) < samples_per_beat,
{
    vstd::arithmetic::div_mod::lemma_fundamental_div_mod_converse(
        tick + 1,
        samples_per_beat as int,
        if tick + 1 == samples_per_beat {
            1
        } else {
            0
        },
        if tick + 1 == samples_per_beat {
            0
        } else {
            tick + 1
        },
    );
}

/// The tick after `k` samples, starting from tick `tick`.
pub open spec fn tick_after(tick: usize, samples_per_beat: usize, k: nat) -> usize
    decreases k,
{
    if k == 0 {
        tick
    } else {
        next_tick(tick_after(tick, samples_per_beat, (k - 1) as nat), samples_per_beat)
    }
}

/// A metronome that starts at the start of a beat is, after `k` samples,
/// `k % samples_per_beat` samples into its beat: the `k`-th sample gets the
/// click part `click_at(k % samples_per_beat)`, a click at every beat.
pub proof fn lemma_metronome_ticks_after(samples_per_beat: usize, k: nat)
    requires
        samples_per_beat >= 1,
    ensures
        tick_after(0, samples_per_beat, k) == (k as int) % (samples_per_beat as int),
        click_at(tick_after(0, samples_per_beat, k)) == click_at(
            ((k as int) % (samples_per_beat as int)) as usize,
        ),
    decreases k,
{
    let d = samples_per_beat as int;
    if k == 0 {
        vstd::arithmetic::div_mod::lemma_fundamental_div_mod_converse(0, d, 0, 0);
    } else {
        let k1 = (k - 1) as nat;
        lemma_metronome_ticks_after(samples_per_beat, k1);
        let r: int = (k1 as int) % d;
        vstd::arithmetic::div_mod::lemma_fundamental_div_mod(k1 as int, d);
        let q: int = (k1 as int) / d;
        lemma_metronome_counts_round(r as usize, samples_per_beat);
        if r + 1 == d {
            assert(k == (q + 1) * d + 0) by (nonlinear_arith)
                requires
                    k1 == d * q + r,
                    r + 1 == d,
                    k == k1 + 1,
            ;
            vstd::arithmetic::div_mod::lemma_fundamental_div_mod_converse(k as int, d, q + 1, 0);
        } else {
            assert(k == q * d + (r + 1)) by (nonlinear_arith)
                requires
                    k1 == d * q + r,
                    k == k1 + 1,
            ;
            vstd::arithmetic::div_mod::lemma_fundamental_div_mod_converse(k as int, d, q, r + 1);
        }
    }
}

/// The click sounds only over the first `CLICK_SAMPLES` samples of a beat,
/// silent after that however long the beat is; while it sounds, each sample
/// carries its own tick, rising over the first `CLICK_RISE` samples and
/// falling after `CLICK_FALL`.
pub proof fn lemma_click_only_at_beat_start(tick: usize)
    ensures
        tick >= CLICK_SAMPLES <==> click_at(tick) == Click::Silent,
        tick < CLICK_SAMPLES && tick < CLICK_RISE ==> click_at(tick) == Click::Rising(tick),
        tick < CLICK_SAMPLES && CLICK_RISE <= tick <= CLICK_FALL ==> click_at(tick)
            == Click::Steady(tick),
        tick < CLICK_SAMPLES && tick > CLICK_FALL ==> click_at(tick) == Click::Falling(tick),
{
}

} // verus!
