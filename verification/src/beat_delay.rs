//! A delay that replays the previous bar beat by beat.
use vstd::prelude::*;
use vstd::arithmetic::div_mod::{lemma_fundamental_div_mod, lemma_fundamental_div_mod_converse};
use crate::tap::{FADE_SAMPLE_COUNT, Gain, Tap};

verus! {

/// The abstract state of a [`BeatDelay`].
pub struct BeatDelayState {
    pub samples_per_beat: usize,
    pub samples_per_bar: usize,
    /// Recording position read next.
    pub index: usize,
    /// Samples of the current beat played so far.
    pub count: usize,
    /// Recording position where the replayed bar starts.
    pub bar_start: usize,
    /// Beats of the replayed bar started so far.
    pub beat_index: usize,
    /// The order in which the beats of a bar are replayed.
    pub order: Seq<usize>,
    pub fade_out: usize,
}

/// `0, 1, .., n - 1`.
pub open spec fn identity_order(n: nat) -> Seq<usize> {
    Seq::new(n, |i: int| i as usize)
}

/// The state `BeatDelay::new(samples_per_beat, beats_per_repeat)` makes.
pub open spec fn beat_delay_init(samples_per_beat: usize, beats_per_repeat: usize) -> BeatDelayState {
    BeatDelayState {
        samples_per_beat,
        samples_per_bar: (samples_per_beat * beats_per_repeat) as usize,
        index: 0,
        count: 0,
        bar_start: 0,
        beat_index: 0,
        order: identity_order(beats_per_repeat as nat),
        fade_out: (samples_per_beat - FADE_SAMPLE_COUNT) as usize,
    }
}

/// The invariant of a [`BeatDelay`].
pub open spec fn beat_delay_wf(s: BeatDelayState) -> bool {
    &&& s.samples_per_beat >= FADE_SAMPLE_COUNT
    &&& s.fade_out == s.samples_per_beat - FADE_SAMPLE_COUNT
    &&& s.order.len() >= 1
    &&& s.order == identity_order(s.order.len())
    &&& s.samples_per_bar == s.samples_per_beat * s.order.len()
    &&& s.beat_index <= s.order.len()
    &&& s.count < s.samples_per_beat
    &&& s.bar_start + s.samples_per_bar <= usize::MAX
    &&& s.count > 0 ==> s.index + (s.samples_per_beat - s.count) <= s.bar_start
        + s.samples_per_bar
}

/// The state after the beat starting at sample `index` has been chosen.
pub open spec fn beat_delay_start_beat(s: BeatDelayState, index: usize) -> BeatDelayState {
    let (bar_start, beat) = if s.beat_index == s.order.len() {
        ((index - s.samples_per_bar) as usize, 0usize)
    } else {
        (s.bar_start, s.beat_index)
    };
    BeatDelayState {
        bar_start,
        beat_index: (beat + 1) as usize,
        index: (bar_start + s.order[beat as int] * s.samples_per_beat) as usize,
        ..s
    }
}

/// One sample through a [`BeatDelay`] in state `s`: the next state and the output.
pub open spec fn beat_delay_step(s: BeatDelayState, index: usize) -> (BeatDelayState, Tap) {
    if index < s.samples_per_bar {
        (s, Tap::Silent)
    } else {
        let s1 = if s.count == 0 {
            beat_delay_start_beat(s, index)
        } else {
            s
        };
        let count = if s1.count + 1 == s1.samples_per_beat {
            0usize
        } else {
            (s1.count + 1) as usize
        };
        (
            BeatDelayState { count, index: (s1.index + 1) as usize, ..s1 },
            Tap::Read { position: s1.index, gain: Gain::Full },
        )
    }
}

/// Replays the previous bar, choosing the recording position afresh at the
/// start of every beat.
pub struct BeatDelay {
    samples_per_beat: usize,
    samples_per_bar: usize,
    index: usize,
    count: usize,
    bar_start: usize,
    beat_index: usize,
    order: Vec<usize>,
    fade_out: usize,
}

impl View for BeatDelay {
    type V = BeatDelayState;

    closed spec fn view(&self) -> BeatDelayState {
        BeatDelayState {
            samples_per_beat: self.samples_per_beat,
            samples_per_bar: self.samples_per_bar,
            index: self.index,
            count: self.count,
            bar_start: self.bar_start,
            beat_index: self.beat_index,
            order: self.order@,
            fade_out: self.fade_out,
        }
    }
}

pub(crate) proof fn lemma_beat_fits(j: int, beats: int, samples_per_beat: int)
    requires
        0 <= j < beats,
        samples_per_beat >= 0,
    ensures
        j * samples_per_beat + samples_per_beat <= samples_per_beat * beats,
        0 <= j * samples_per_beat,
{
    assert(j * samples_per_beat + samples_per_beat <= samples_per_beat * beats) by (nonlinear_arith)
        requires
            0 <= j < beats,
            samples_per_beat >= 0,
    ;
    assert(0 <= j * samples_per_beat) by (nonlinear_arith)
        requires
            0 <= j,
            samples_per_beat >= 0,
    ;
}

impl BeatDelay {
    /// A delay replaying bars of `beats_per_repeat` beats of
    /// `samples_per_beat` samples.
    pub fn new(samples_per_beat: usize, beats_per_repeat: usize) -> (delay: Self)
        requires
            beats_per_repeat >= 1,
            samples_per_beat >= FADE_SAMPLE_COUNT,
            samples_per_beat * beats_per_repeat <= usize::MAX,
        ensures
            delay@ == beat_delay_init(samples_per_beat, beats_per_repeat),
            beat_delay_wf(delay@),
    {
        let b = beats_per_repeat;
        let mut order: Vec<usize> = Vec::new();
        for i in 0..b
            invariant
                order@ == identity_order(i as nat),
        {
            order.push(i);
            assert(order@ =~= identity_order((i + 1) as nat));
        }
        let mut delay = BeatDelay {
            samples_per_beat,
            samples_per_bar: samples_per_beat * b,
            index: 0,
            count: 0,
            bar_start: 0,
            beat_index: 0,
            order,
            fade_out: samples_per_beat - FADE_SAMPLE_COUNT,
        };
        assert(delay.order@[0] == 0);
        assert(0 * samples_per_beat == 0) by (nonlinear_arith);
        delay.set_beat();
        assert(delay@ =~= beat_delay_init(samples_per_beat, beats_per_repeat));
        delay
    }

    fn start_bar(&mut self, index: usize)
        ensures
            final(self)@ == (BeatDelayState { bar_start: index, beat_index: 0, ..old(self)@ }),
    {
        self.bar_start = index;
        self.beat_index = 0;
    }

    fn set_beat(&mut self)
        requires
            old(self).beat_index < old(self).order.len(),
            old(self).order@ == identity_order(old(self).order@.len()),
            old(self).samples_per_bar == old(self).samples_per_beat * old(self).order@.len(),
            old(self).bar_start + old(self).samples_per_bar <= usize::MAX,
        ensures
            final(self)@ == (BeatDelayState {
                index: (old(self).bar_start + old(self).order@[old(self).beat_index as int]
                    * old(self).samples_per_beat) as usize,
                ..old(self)@
            }),
            final(self).index + final(self).samples_per_beat <= final(self).bar_start
                + final(self).samples_per_bar,
    {
        let current_beat = self.order[self.beat_index];
        proof {
            lemma_beat_fits(
                current_beat as int,
                self.order@.len() as int,
                self.samples_per_beat as int,
            );
        }
        self.index = self.bar_start + current_beat * self.samples_per_beat;
    }

    /// The output for sample `index`: silence during the first bar, then
    /// the recording of the bar being replayed.
    pub fn process_sample(&mut self, index: usize) -> (tap: Tap)
        requires
            beat_delay_wf(old(self)@),
        ensures
            (final(self)@, tap) == beat_delay_step(old(self)@, index),
            beat_delay_wf(final(self)@),
    {
        if index < self.samples_per_bar {
            Tap::Silent
        } else {
            if self.count == 0 {
                if self.beat_index == self.order.len() {
                    self.start_bar(index - self.samples_per_bar);
                }
                self.set_beat();
                self.beat_index = self.beat_index + 1;
            }
            let position = self.index;
            self.count = self.count + 1;
            self.index = self.index + 1;
            if self.count == self.samples_per_beat {
                self.count = 0;
            }
            Tap::Read { position, gain: Gain::Full }
        }
    }
}

/// Where a [`BeatDelay`] stands once the samples `0..n` have gone through it
/// in order: still silent during the first bar; afterwards `m = n - bar`
/// samples have been played, the last of them in overall beat
/// `k = (m - 1) / samples_per_beat`, which is beat `k % beats` of replayed
/// bar `k / beats`.
pub open spec fn beat_delay_after(s: BeatDelayState, n: nat) -> bool {
    let bar = s.samples_per_bar as int;
    let spb = s.samples_per_beat as int;
    let beats = s.order.len() as int;
    if n <= bar {
        &&& s.count == 0
        &&& s.beat_index == 0
        &&& s.bar_start == 0
        &&& s.index == 0
    } else {
        let m = n - bar;
        let k = (m - 1) / spb;
        &&& s.count == m % spb
        &&& s.beat_index == k % beats + 1
        &&& s.bar_start == (k / beats) * bar
        &&& s.index == m
    }
}

/// A new delay has taken in no samples yet.
pub proof fn lemma_beat_delay_new_is_fresh(samples_per_beat: usize, beats_per_repeat: usize)
    ensures
        beat_delay_after(beat_delay_init(samples_per_beat, beats_per_repeat), 0),
{
}

/// Fed the samples `0, 1, 2, ..` in order, a `BeatDelay` is a delay of
/// exactly one bar: silent during the first bar, then at sample `n` it plays
/// the recording at `n - samples_per_bar`, with full gain.
pub proof fn lemma_beat_delay_replays_previous_bar(s: BeatDelayState, n: usize)
    requires
        beat_delay_wf(s),
        beat_delay_after(s, n as nat),
    ensures
        beat_delay_step(s, n).1 == (if n < s.samples_per_bar {
            Tap::Silent
        } else {
            Tap::Read { position: (n - s.samples_per_bar) as usize, gain: Gain::Full }
        }),
        beat_delay_after(beat_delay_step(s, n).0, n as nat + 1),
{
    let bar = s.samples_per_bar as int;
    let d = s.samples_per_beat as int;
    let b = s.order.len() as int;
    assert(s.order[0] == 0);
    assert(0 * d == 0 && 0 * b == 0 && 0 * bar == 0) by (nonlinear_arith);
    assert(bar >= d) by (nonlinear_arith)
        requires
            bar == d * b,
            b >= 1,
            d >= 0,
    ;
    if n < bar {
    } else if n == bar {
        lemma_fundamental_div_mod_converse(1, d, 0, 1);
        lemma_fundamental_div_mod_converse(0, d, 0, 0);
        lemma_fundamental_div_mod_converse(0, b, 0, 0);
    } else {
        let m = n - bar;
        let k = (m - 1) / d;
        let r = m % d;
        lemma_fundamental_div_mod(m, d);
        lemma_fundamental_div_mod(k, b);
        let q = m / d;
        assert(((n as nat + 1) - bar - 1) / d == q);
        if r == 0 {
            assert(m - 1 == (q - 1) * d + (d - 1)) by (nonlinear_arith)
                requires
                    m == d * q,
            ;
            lemma_fundamental_div_mod_converse(m - 1, d, q - 1, d - 1);
            assert(k == q - 1);
            assert(m + 1 == q * d + 1) by (nonlinear_arith)
                requires
                    m == d * q,
            ;
            lemma_fundamental_div_mod_converse(m + 1, d, q, 1);
            if k % b + 1 == b {
                assert(q == (k / b + 1) * b + 0) by (nonlinear_arith)
                    requires
                        q == k + 1,
                        k == b * (k / b) + k % b,
                        k % b + 1 == b,
                ;
                lemma_fundamental_div_mod_converse(q, b, k / b + 1, 0);
                assert((q / b) * bar == m) by (nonlinear_arith)
                    requires
                        q == (q / b) * b,
                        bar == d * b,
                        m == d * q,
                ;
                assert(beat_delay_start_beat(s, n).index == m);
            } else {
                let j = k % b + 1;
                assert(s.order[j] == j);
                assert(q == (k / b) * b + j) by (nonlinear_arith)
                    requires
                        q == k + 1,
                        k == b * (k / b) + k % b,
                        j == k % b + 1,
                ;
                lemma_fundamental_div_mod_converse(q, b, k / b, j);
                assert((k / b) * bar + j * d == m) by (nonlinear_arith)
                    requires
                        q == (k / b) * b + j,
                        bar == d * b,
                        m == d * q,
                ;
                assert((s.order[j] as int) * d == j * d);
                assert(beat_delay_start_beat(s, n).index == m);
            }
        } else {
            assert(m - 1 == q * d + (r - 1)) by (nonlinear_arith)
                requires
                    m == d * q + r,
            ;
            lemma_fundamental_div_mod_converse(m - 1, d, q, r - 1);
            if r + 1 == d {
                assert(m + 1 == (q + 1) * d + 0) by (nonlinear_arith)
                    requires
                        m == d * q + r,
                        r + 1 == d,
                ;
                lemma_fundamental_div_mod_converse(m + 1, d, q + 1, 0);
            } else {
                assert(m + 1 == q * d + (r + 1)) by (nonlinear_arith)
                    requires
                        m == d * q + r,
                ;
                lemma_fundamental_div_mod_converse(m + 1, d, q, r + 1);
            }
        }
    }
}

/// Every step keeps a `BeatDelay` well formed.
pub proof fn lemma_beat_delay_step_keeps_wf(s: BeatDelayState, index: usize)
    requires
        beat_delay_wf(s),
    ensures
        beat_delay_wf(beat_delay_step(s, index).0),
        beat_delay_step(s, index).0.samples_per_bar == s.samples_per_bar,
{
    if index >= s.samples_per_bar && s.count == 0 {
        let s1 = beat_delay_start_beat(s, index);
        let beat = if s.beat_index == s.order.len() {
            0
        } else {
            s.beat_index as int
        };
        assert(s1.order[beat] == beat);
        lemma_beat_fits(beat, s.order.len() as int, s.samples_per_beat as int);
    }
}

/// The taps of `k` samples through a `BeatDelay` in state `s`, fed the
/// samples `n, n + 1, ..` in order.
pub open spec fn beat_delay_run(s: BeatDelayState, n: nat, k: nat) -> Seq<Tap>
    decreases k,
{
    if k == 0 {
        Seq::empty()
    } else {
        let (s1, tap) = beat_delay_step(s, n as usize);
        seq![tap] + beat_delay_run(s1, n + 1, (k - 1) as nat)
    }
}

/// What a delay of exactly one bar of `bar` samples plays at sample `n`.
pub open spec fn one_bar_delay(bar: usize, n: nat) -> Tap {
    if n < bar {
        Tap::Silent
    } else {
        Tap::Read { position: (n - bar) as usize, gain: Gain::Full }
    }
}

/// Over any number of samples fed in order, a `BeatDelay` in step with the
/// samples plays exactly a one-bar delay.
pub proof fn lemma_beat_delay_run_is_one_bar_delay(s: BeatDelayState, n: nat, k: nat)
    requires
        beat_delay_wf(s),
        beat_delay_after(s, n),
        n + k <= usize::MAX + 1,
    ensures
        beat_delay_run(s, n, k).len() == k,
        forall|j: int|
            0 <= j < k ==> #[trigger] beat_delay_run(s, n, k)[j] == one_bar_delay(
                s.samples_per_bar,
                (n + j) as nat,
            ),
    decreases k,
{
    if k > 0 {
        let (s1, tap) = beat_delay_step(s, n as usize);
        lemma_beat_delay_replays_previous_bar(s, n as usize);
        lemma_beat_delay_step_keeps_wf(s, n as usize);
        lemma_beat_delay_run_is_one_bar_delay(s1, n + 1, (k - 1) as nat);
        let run = beat_delay_run(s, n, k);
        assert forall|j: int| 0 <= j < k implies #[trigger] run[j] == one_bar_delay(
            s.samples_per_bar,
            (n + j) as nat,
        ) by {
            if j > 0 {
                assert(run[j] == beat_delay_run(s1, n + 1, (k - 1) as nat)[j - 1]);
            }
        }
    }
}

/// A new `BeatDelay`, fed the samples `0, 1, 2, ..`, is exactly a delay of
/// one bar: silent for the first bar, then the recording one bar back.
pub proof fn lemma_beat_delay_new_is_one_bar_delay(
    samples_per_beat: usize,
    beats_per_repeat: usize,
    k: nat,
)
    requires
        beats_per_repeat >= 1,
        samples_per_beat >= FADE_SAMPLE_COUNT,
        samples_per_beat * beats_per_repeat <= usize::MAX,
        k <= usize::MAX + 1,
    ensures
        forall|j: int|
            0 <= j < k ==> #[trigger] beat_delay_run(
                beat_delay_init(samples_per_beat, beats_per_repeat),
                0,
                k,
            )[j] == one_bar_delay((samples_per_beat * beats_per_repeat) as usize, j as nat),
{
    let s = beat_delay_init(samples_per_beat, beats_per_repeat);
    assert(s.order.len() == beats_per_repeat);
    assert(beat_delay_wf(s));
    lemma_beat_delay_run_is_one_bar_delay(s, 0, k);
}

/// A sample from inside the first bar changes nothing: it is silent and
/// leaves the delay as it was, so such calls may come between the others.
pub proof fn lemma_beat_delay_below_bar_changes_nothing(s: BeatDelayState, index: usize)
    requires
        index < s.samples_per_bar,
    ensures
        beat_delay_step(s, index) == (s, Tap::Silent),
{
}

} // verus!
