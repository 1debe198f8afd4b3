//! The recording session's sample clock: where each incoming sample is
//! recorded, and the metronome that plays along.
use vstd::prelude::*;
use crate::metronome::{Click, Metronome, MetronomeState, click_at, next_tick};

verus! {

/// What happens to one recorded sample.
#[derive(PartialEq, Eq, Structural, Debug, Clone, Copy)]
pub struct Frame {
    /// Where in the recording the sample goes (and where the loop effect reads).
    pub write_at: usize,
    /// The metronome's click for this sample.
    pub click: Click,
    /// Whether the recording wrapped round and starts overwriting itself.
    pub wrapped: bool,
}

/// The abstract state of a [`Transport`].
pub struct TransportState {
    /// Where the next sample is recorded.
    pub index: usize,
    /// Length of the recording buffer.
    pub length: usize,
    pub metronome: MetronomeState,
}

/// The recording position after `index` in a buffer of `length` samples.
pub open spec fn next_write(index: usize, length: usize) -> usize {
    if index + 1 >= length {
        0
    } else {
        (index + 1) as usize
    }
}

/// Steps a recording session one sample at a time: first counting in with
/// the metronome, then recording round a buffer with the metronome going on.
pub struct Transport {
    index: usize,
    length: usize,
    metronome: Metronome,
}

impl View for Transport {
    type V = TransportState;

    closed spec fn view(&self) -> TransportState {
        TransportState { index: self.index, length: self.length, metronome: self.metronome@ }
    }
}

impl Transport {
    /// A session recording into a buffer of `length` samples, with `metronome`.
    pub fn new(length: usize, metronome: Metronome) -> (transport: Self)
        requires
            length >= 1,
        ensures
            transport@ == (TransportState { index: 0, length, metronome: metronome@ }),
    {
        Transport { index: 0, length, metronome }
    }

    /// Where the next sample is recorded.
    pub fn index(&self) -> (n: usize)
        ensures
            n == self@.index,
    {
        self.index
    }

    /// The metronome's position in the beat.
    pub fn metronome_tick(&self) -> (n: usize)
        ensures
            n == self@.metronome.tick,
    {
        self.metronome.tick()
    }

    /// One sample of the count-in: only the metronome plays.
    pub fn count_in(&mut self) -> (click: Click)
        requires
            old(self)@.metronome.tick < usize::MAX,
        ensures
            click == click_at(old(self)@.metronome.tick),
            final(self)@ == (TransportState {
                metronome: MetronomeState {
                    tick: next_tick(old(self)@.metronome.tick, old(self)@.metronome.samples_per_beat),
                    ..old(self)@.metronome
                },
                ..old(self)@
            }),
    {
        self.metronome.next_click()
    }

    /// One recorded sample: where it goes, the click over it, and whether
    /// the recording wrapped round.
    pub fn record(&mut self) -> (frame: Frame)
        requires
            old(self)@.metronome.tick < usize::MAX,
            old(self)@.index < old(self)@.length,
        ensures
            frame == (Frame {
                write_at: old(self)@.index,
                click: click_at(old(self)@.metronome.tick),
                wrapped: old(self)@.index + 1 >= old(self)@.length,
            }),
            final(self)@ == (TransportState {
                index: next_write(old(self)@.index, old(self)@.length),
                metronome: MetronomeState {
                    tick: next_tick(old(self)@.metronome.tick, old(self)@.metronome.samples_per_beat),
                    ..old(self)@.metronome
                },
                ..old(self)@
            }),
            final(self)@.index < final(self)@.length,
    {
        let write_at = self.index;
        let click = self.metronome.next_click();
        self.index = self.index + 1;
        let mut wrapped = false;
        if self.index >= self.length {
            self.index = 0;
            wrapped = true;
        }
        Frame { write_at, click, wrapped }
    }
}

/// Recording goes round the buffer: each sample is written right after the
/// one before, modulo the buffer's length, so every write lands inside it.
pub proof fn lemma_recording_goes_round(index: usize, length: usize)
    requires
        index < length,
    ensures
        next_write(index, length) == (index + 1) % (length as int),
        next_write(index, length) < length,
{
    vstd::arithmetic::div_mod::lemma_fundamental_div_mod_converse(
        index + 1,
        length as int,
        if index + 1 == length {
            1
        } else {
            0
        },
        if index + 1 == length {
            0
        } else {
            index + 1
        },
    );
}

} // verus!
