//! A delay that replays a random number of the beats just heard, over and over.
use vstd::prelude::*;
use crate::tap::{FADE_SAMPLE_COUNT, Gain, Tap, fade_in_span, gain_at_most_full, span_fade};

verus! {

/// The abstract state of a [`TruncateDelay`].
pub struct TruncateDelayState {
    pub samples_per_beat: usize,
    pub beats_per_repeat: usize,
    pub samples_per_bar: usize,
    /// Recording position read next.
    pub index: usize,
    /// Sample at which the current group started; its replay ends there.
    pub end_index: usize,
    /// Length of the current group, in beats.
    pub len: usize,
    /// Samples of the current beat played so far.
    pub count: usize,
    pub fade_out: usize,
}

/// The state `TruncateDelay::new(samples_per_beat, beats_per_repeat)` makes.
pub open spec fn truncate_init(samples_per_beat: usize, beats_per_repeat: usize) -> TruncateDelayState {
    TruncateDelayState {
        samples_per_beat,
        beats_per_repeat,
        samples_per_bar: (samples_per_beat * beats_per_repeat) as usize,
        index: 0,
        end_index: 0,
        len: 1,
        count: 0,
        fade_out: (samples_per_beat - FADE_SAMPLE_COUNT) as usize,
    }
}

/// How many different group lengths there are for bars of
/// `beats_per_repeat` beats: a group is `1` to `beats_per_repeat - 1` beats
/// long, and one beat long when the bar has fewer than three beats.
pub open spec fn group_range(beats_per_repeat: usize) -> nat {
    if beats_per_repeat >= 2 {
        (beats_per_repeat - 1) as nat
    } else {
        1
    }
}

/// The invariant of a [`TruncateDelay`]: the read position lies within the
/// `len` beats before the group's start, and the group is a valid length.
pub open spec fn truncate_wf(s: TruncateDelayState) -> bool {
    &&& s.samples_per_beat >= FADE_SAMPLE_COUNT
    &&& s.samples_per_bar == s.samples_per_beat * s.beats_per_repeat
    &&& s.count < s.samples_per_beat
    &&& s.fade_out + FADE_SAMPLE_COUNT >= s.samples_per_beat
    &&& 1 <= s.len <= group_range(s.beats_per_repeat)
    &&& s.end_index - s.len * s.samples_per_beat <= s.index <= s.end_index
}

/// Whether sample `index` starts a new group, which takes a random draw.
pub open spec fn truncate_starts_group(s: TruncateDelayState, index: usize) -> bool {
    index >= s.samples_per_bar && s.index >= s.end_index
}

/// Whether a group of `draw + 1` beats can start: the draw is one of the
/// `group_range` values a random draw over `beats_per_repeat - 1` gives.
pub open spec fn truncate_draw_fits(s: TruncateDelayState, draw: usize) -> bool {
    &&& s.beats_per_repeat >= 1
    &&& draw < group_range(s.beats_per_repeat)
}

/// One sample through a [`TruncateDelay`] in state `s`: the next state and
/// the output.  When a group starts, it is `draw + 1` beats long.
pub open spec fn truncate_step(s: TruncateDelayState, index: usize, draw: usize) -> (
    TruncateDelayState,
    Tap,
) {
    if index < s.samples_per_bar {
        (s, Tap::Silent)
    } else {
        let s1 = if s.index >= s.end_index {
            TruncateDelayState {
                len: (draw + 1) as usize,
                index: (index - (draw + 1) * s.samples_per_beat) as usize,
                end_index: index,
                count: 0,
                fade_out: (index - FADE_SAMPLE_COUNT) as usize,
                ..s
            }
        } else {
            s
        };
        let gain = span_fade(s1.count, s1.samples_per_beat, s1.fade_out);
        let count = if s1.count + 1 == s1.samples_per_beat {
            0usize
        } else {
            (s1.count + 1) as usize
        };
        (
            TruncateDelayState { count, index: (s1.index + 1) as usize, ..s1 },
            Tap::Read { position: s1.index, gain },
        )
    }
}

/// Replays groups of a random number of beats: each group repeats the beats
/// that came just before it started.
pub struct TruncateDelay {
    samples_per_beat: usize,
    beats_per_repeat: usize,
    samples_per_bar: usize,
    index: usize,
    end_index: usize,
    len: usize,
    count: usize,
    fade_out: usize,
}

impl View for TruncateDelay {
    type V = TruncateDelayState;

    closed spec fn view(&self) -> TruncateDelayState {
        TruncateDelayState {
            samples_per_beat: self.samples_per_beat,
            beats_per_repeat: self.beats_per_repeat,
            samples_per_bar: self.samples_per_bar,
            index: self.index,
            end_index: self.end_index,
            len: self.len,
            count: self.count,
            fade_out: self.fade_out,
        }
    }
}

impl TruncateDelay {
    /// A truncating delay over bars of `beats_per_repeat` beats of
    /// `samples_per_beat` samples.
    pub fn new(samples_per_beat: usize, beats_per_repeat: usize) -> (delay: Self)
        requires
            samples_per_beat >= FADE_SAMPLE_COUNT,
            samples_per_beat * beats_per_repeat <= usize::MAX,
        ensures
            delay@ == truncate_init(samples_per_beat, beats_per_repeat),
            truncate_wf(delay@),
    {
        TruncateDelay {
            samples_per_beat,
            beats_per_repeat,
            samples_per_bar: samples_per_beat * beats_per_repeat,
            index: 0,
            end_index: 0,
            len: 1,
            count: 0,
            fade_out: samples_per_beat - FADE_SAMPLE_COUNT,
        }
    }

    /// Whether sample `index` starts a new group and so needs a draw.
    pub fn starts_group(&self, index: usize) -> (r: bool)
        ensures
            r == truncate_starts_group(self@, index),
    {
        index >= self.samples_per_bar && self.index >= self.end_index
    }

    /// The number of beats in a bar; a group is at most this long.
    pub fn beats_per_repeat(&self) -> (n: usize)
        ensures
            n == self@.beats_per_repeat,
    {
        self.beats_per_repeat
    }

    /// Whether `draw` is a valid draw for the length of a new group.
    pub fn draw_fits(&self, draw: usize) -> (r: bool)
        ensures
            r == truncate_draw_fits(self@, draw),
    {
        self.beats_per_repeat >= 1 && (if self.beats_per_repeat >= 2 {
            draw < self.beats_per_repeat - 1
        } else {
            draw < 1
        })
    }

    fn next_group(&mut self, index: usize, draw: usize)
        requires
            truncate_wf(old(self)@),
            truncate_draw_fits(old(self)@, draw),
            index >= old(self)@.samples_per_bar,
        ensures
            final(self)@ == (TruncateDelayState {
                len: (draw + 1) as usize,
                index: (index - (draw + 1) * old(self)@.samples_per_beat) as usize,
                end_index: index,
                count: 0,
                fade_out: (index - FADE_SAMPLE_COUNT) as usize,
                ..old(self)@
            }),
    {
        proof {
            lemma_group_fits(
                draw as int,
                self.beats_per_repeat as int,
                self.samples_per_beat as int,
            );
        }
        self.len = draw + 1;
        self.index = index - self.len * self.samples_per_beat;
        self.end_index = index;
        self.count = 0;
        self.fade_out = index - FADE_SAMPLE_COUNT;
    }

    /// The output for sample `index`; when a group starts there (see
    /// [`TruncateDelay::starts_group`]) it is `draw + 1` beats long, and
    /// `draw` is unused otherwise.
    pub fn process_sample(&mut self, index: usize, draw: usize) -> (tap: Tap)
        requires
            truncate_wf(old(self)@),
            truncate_starts_group(old(self)@, index) ==> truncate_draw_fits(old(self)@, draw),
        ensures
            (final(self)@, tap) == truncate_step(old(self)@, index, draw),
            truncate_wf(final(self)@),
    {
        if index < self.samples_per_bar {
            Tap::Silent
        } else {
            if self.index >= self.end_index {
                self.next_group(index, draw);
                proof {
                    lemma_group_is_nonempty(self.len as int, self.samples_per_beat as int);
                    lemma_group_fits(
                        draw as int,
                        self.beats_per_repeat as int,
                        self.samples_per_beat as int,
                    );
                }
            }
            let gain = fade_in_span(self.count, self.samples_per_beat, self.fade_out);
            let position = self.index;
            self.count = self.count + 1;
            self.index = self.index + 1;
            if self.count == self.samples_per_beat {
                self.count = 0;
            }
            Tap::Read { position, gain }
        }
    }
}

proof fn lemma_group_is_nonempty(len: int, samples_per_beat: int)
    requires
        len >= 1,
        samples_per_beat >= 1,
    ensures
        len * samples_per_beat >= samples_per_beat,
{
    assert(len * samples_per_beat >= samples_per_beat) by (nonlinear_arith)
        requires
            len >= 1,
            samples_per_beat >= 1,
    ;
}

/// A group of `draw + 1` beats, `draw < group_range`, fits in one bar.
proof fn lemma_group_fits(draw: int, beats: int, samples_per_beat: int)
    requires
        beats >= 1,
        0 <= draw,
        draw < if beats >= 2 {
            beats - 1
        } else {
            1
        },
        samples_per_beat >= 0,
    ensures
        (draw + 1) * samples_per_beat <= samples_per_beat * beats,
        samples_per_beat <= samples_per_beat * beats,
{
    assert((draw + 1) * samples_per_beat <= samples_per_beat * beats) by (nonlinear_arith)
        requires
            draw + 1 <= beats,
            samples_per_beat >= 0,
    ;
    assert(samples_per_beat <= samples_per_beat * beats) by (nonlinear_arith)
        requires
            beats >= 1,
            samples_per_beat >= 0,
    ;
}

/// Whether a `TruncateDelay` in state `s` is in step with the sample
/// `index`: either its group is over, or it reads exactly `len` beats behind
/// `index`.
pub open spec fn truncate_in_step(s: TruncateDelayState, index: usize) -> bool {
    s.index >= s.end_index || s.index + s.len * s.samples_per_beat == index
}

/// A new truncating delay is in step with any sample: its first group
/// starts at the first sample it plays.
pub proof fn lemma_truncate_new_in_step(samples_per_beat: usize, beats_per_repeat: usize, index: usize)
    ensures
        truncate_in_step(truncate_init(samples_per_beat, beats_per_repeat), index),
{
}

/// Fed the samples of the recording in order, a truncating delay is silent
/// for the first bar and then replays only what it heard last: at sample
/// `n` it plays the recording at `n - len * samples_per_beat`, for a group
/// length `len` of `1..=group_range(beats_per_repeat)` beats kept for the
/// whole group, at a gain of at most one.
pub proof fn lemma_truncate_replays_last_beats(s: TruncateDelayState, n: usize, draw: usize)
    requires
        truncate_wf(s),
        truncate_starts_group(s, n) ==> truncate_draw_fits(s, draw),
        n >= s.samples_per_bar ==> truncate_in_step(s, n),
    ensures
        n < s.samples_per_bar <==> truncate_step(s, n, draw).1 is Silent,
        truncate_step(s, n, draw).1 matches Tap::Read { position, gain } ==> {
            let s2 = truncate_step(s, n, draw).0;
            &&& position == n - s2.len * s2.samples_per_beat
            &&& s2.end_index - s2.len * s2.samples_per_beat <= position < s2.end_index
            &&& 1 <= s2.len <= group_range(s2.beats_per_repeat)
            &&& (s.index < s.end_index ==> s2.len == s.len)
            &&& gain_at_most_full(gain)
        },
        n >= s.samples_per_bar && n < usize::MAX ==> truncate_in_step(
            truncate_step(s, n, draw).0,
            (n + 1) as usize,
        ),
{
    lemma_group_is_nonempty((draw + 1) as int, s.samples_per_beat as int);
    if n >= s.samples_per_bar && s.index >= s.end_index {
        lemma_group_fits(draw as int, s.beats_per_repeat as int, s.samples_per_beat as int);
    }
}

/// A sample from inside the first bar changes nothing: it is silent and
/// leaves the delay as it was, so such calls may come between the others.
pub proof fn lemma_truncate_below_bar_changes_nothing(s: TruncateDelayState, index: usize, draw: usize)
    requires
        index < s.samples_per_bar,
    ensures
        truncate_step(s, index, draw) == (s, Tap::Silent),
{
}

/// The anti-pop fade of a truncating delay follows the sample's place in
/// its beat: with `count` samples of the beat played (none when a group
/// starts) it ramps up over the first `FADE_SAMPLE_COUNT` samples, is at
/// full level from there up to the fade-out point, ramps down after it, and
/// is never louder than full level.
pub proof fn lemma_truncate_fades_each_beat(s: TruncateDelayState, n: usize, draw: usize)
    requires
        truncate_wf(s),
        truncate_starts_group(s, n) ==> truncate_draw_fits(s, draw),
    ensures
        truncate_step(s, n, draw).1 matches Tap::Read { gain, .. } ==> {
            let count = if truncate_starts_group(s, n) {
                0usize
            } else {
                s.count
            };
            let fade_out = if truncate_starts_group(s, n) {
                (n - FADE_SAMPLE_COUNT) as usize
            } else {
                s.fade_out
            };
            &&& count < FADE_SAMPLE_COUNT ==> gain == Gain::Faded(count)
            &&& FADE_SAMPLE_COUNT <= count <= fade_out ==> gain == Gain::Full
            &&& FADE_SAMPLE_COUNT <= count && count > fade_out ==> gain == Gain::Faded(
                (s.samples_per_beat - count) as usize,
            )
            &&& gain_at_most_full(gain)
        },
{
    if n >= s.samples_per_bar {
        if truncate_starts_group(s, n) {
            lemma_group_fits(draw as int, s.beats_per_repeat as int, s.samples_per_beat as int);
            crate::tap::lemma_span_fade_shape(
                0,
                s.samples_per_beat,
                (n - FADE_SAMPLE_COUNT) as usize,
            );
        } else {
            crate::tap::lemma_span_fade_shape(s.count, s.samples_per_beat, s.fade_out);
        }
    }
}

} // verus!
