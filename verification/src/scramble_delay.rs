//! A delay that replays the beats of the previous bar in a shuffled order.
use vstd::prelude::*;
use crate::tap::{FADE_SAMPLE_COUNT, Tap, fade_in_span, span_fade};
use crate::beat_delay::identity_order;
use vstd::arithmetic::div_mod::{lemma_fundamental_div_mod, lemma_fundamental_div_mod_converse};

verus! {

/// `order` lists each beat `0..order.len()` exactly once: its entries are
/// beats and no two are the same.
pub open spec fn is_beat_order(order: Seq<usize>) -> bool {
    &&& forall|i: int| 0 <= i < order.len() ==> #[trigger] order[i] < order.len()
    &&& forall|i: int, j: int| 0 <= i < j < order.len() ==> order[i] != order[j]
}

/// `order` with the entries at `i` and `j` exchanged.
pub open spec fn swap_beats(order: Seq<usize>, i: int, j: int) -> Seq<usize> {
    order.update(i, order[j]).update(j, order[i])
}

/// Random draws fit for shuffling `len` beats: one for each position
/// `len - 1` down to `1`, each at most that position.
pub open spec fn valid_draws(len: nat, draws: Seq<usize>) -> bool {
    &&& draws.len() == if len == 0 {
        0
    } else {
        len - 1
    }
    &&& forall|t: int| 0 <= t < draws.len() ==> #[trigger] draws[t] <= len - 1 - t
}

/// The Fisher-Yates shuffle of `order` from step `t` on: step `t` swaps the
/// entry at `order.len() - 1 - t` with the one at `draws[t]`.
pub open spec fn shuffle_from(order: Seq<usize>, draws: Seq<usize>, t: nat) -> Seq<usize>
    decreases draws.len() - t,
{
    if t >= draws.len() {
        order
    } else {
        shuffle_from(
            swap_beats(order, order.len() - 1 - t, draws[t as int] as int),
            draws,
            t + 1,
        )
    }
}

/// `order` shuffled with `draws`.
pub open spec fn shuffled(order: Seq<usize>, draws: Seq<usize>) -> Seq<usize> {
    shuffle_from(order, draws, 0)
}

/// The abstract state of a [`ScrambleDelay`].
pub struct ScrambleDelayState {
    pub samples_per_beat: usize,
    pub samples_per_bar: usize,
    /// Samples taken in so far.
    pub sample_index: usize,
    /// Recording position read next.
    pub index: usize,
    /// Samples of the current beat played so far.
    pub count: usize,
    /// Recording position where the replayed bar starts.
    pub bar_start: usize,
    /// Beats of the replayed bar started so far.
    pub beat_index: usize,
    /// The order in which the beats of the replayed bar are played.
    pub order: Seq<usize>,
    pub fade_out: usize,
}

/// The state `ScrambleDelay::new(samples_per_beat, beats_per_repeat, draws)` makes.
pub open spec fn scramble_init(
    samples_per_beat: usize,
    beats_per_repeat: usize,
    draws: Seq<usize>,
) -> ScrambleDelayState {
    ScrambleDelayState {
        samples_per_beat,
        samples_per_bar: (samples_per_beat * beats_per_repeat) as usize,
        sample_index: 0,
        index: 0,
        count: 0,
        bar_start: 0,
        beat_index: 0,
        order: shuffled(identity_order(beats_per_repeat as nat), draws),
        fade_out: (samples_per_beat - FADE_SAMPLE_COUNT) as usize,
    }
}

/// The invariant of a [`ScrambleDelay`].
pub open spec fn scramble_wf(s: ScrambleDelayState) -> bool {
    &&& s.samples_per_beat >= FADE_SAMPLE_COUNT
    &&& s.fade_out == s.samples_per_beat - FADE_SAMPLE_COUNT
    &&& s.samples_per_bar == s.samples_per_beat * s.order.len()
    &&& is_beat_order(s.order)
    &&& s.beat_index <= s.order.len()
    &&& s.count < s.samples_per_beat
    &&& s.bar_start + s.samples_per_bar <= usize::MAX
    &&& s.count > 0 ==> s.index + (s.samples_per_beat - s.count) <= s.bar_start
        + s.samples_per_bar
}

/// Whether the next sample starts a new bar, which reshuffles the beats.
pub open spec fn scramble_starts_bar(s: ScrambleDelayState) -> bool {
    &&& s.sample_index >= s.samples_per_bar
    &&& s.count == 0
    &&& s.beat_index == s.order.len()
}

/// Whether the next sample can be taken: the sample counter stays within
/// `usize` and there is a beat to play.
pub open spec fn scramble_can_step(s: ScrambleDelayState) -> bool {
    &&& s.sample_index < usize::MAX
    &&& (s.sample_index >= s.samples_per_bar && s.count == 0) ==> s.order.len() >= 1
}

/// The state after the beat starting at the sample counted `here` has been
/// chosen, reshuffling with `draws` when a bar starts.
pub open spec fn scramble_start_beat(s: ScrambleDelayState, here: usize, draws: Seq<usize>) -> ScrambleDelayState {
    let sb = if s.beat_index == s.order.len() {
        ScrambleDelayState {
            bar_start: (here - s.samples_per_bar) as usize,
            order: shuffled(s.order, draws),
            beat_index: 0,
            ..s
        }
    } else {
        s
    };
    ScrambleDelayState {
        index: (sb.bar_start + sb.order[sb.beat_index as int] * sb.samples_per_beat) as usize,
        beat_index: (sb.beat_index + 1) as usize,
        ..sb
    }
}

/// One sample through a [`ScrambleDelay`] in state `s`: the next state and
/// the output.
pub open spec fn scramble_step(s: ScrambleDelayState, draws: Seq<usize>) -> (ScrambleDelayState, Tap) {
    let here = s.sample_index;
    let s0 = ScrambleDelayState { sample_index: (here + 1) as usize, ..s };
    if here < s.samples_per_bar {
        (s0, Tap::Silent)
    } else {
        let s1 = if s0.count == 0 {
            scramble_start_beat(s0, here, draws)
        } else {
            s0
        };
        let gain = span_fade(s1.count, s1.samples_per_beat, s1.fade_out);
        let count = if s1.count + 1 == s1.samples_per_beat {
            0usize
        } else {
            (s1.count + 1) as usize
        };
        (
            ScrambleDelayState { count, index: (s1.index + 1) as usize, ..s1 },
            Tap::Read { position: s1.index, gain },
        )
    }
}

/// Swapping exchanges the two entries, leaves the others alone, and is
/// undone by swapping the same two entries again.
pub proof fn lemma_swap_beats_exchanges(order: Seq<usize>, i: int, j: int)
    requires
        0 <= i < order.len(),
        0 <= j < order.len(),
    ensures
        swap_beats(order, i, j).len() == order.len(),
        swap_beats(order, i, j)[i] == order[j],
        swap_beats(order, i, j)[j] == order[i],
        forall|k: int|
            0 <= k < order.len() && k != i && k != j ==> #[trigger] swap_beats(order, i, j)[k]
                == order[k],
        swap_beats(swap_beats(order, i, j), i, j) == order,
{
    assert(swap_beats(swap_beats(order, i, j), i, j) =~= order);
}

/// Exchanging two entries keeps an order of beats an order of beats.
pub proof fn lemma_swap_keeps_beat_order(order: Seq<usize>, i: int, j: int)
    requires
        is_beat_order(order),
        0 <= i < order.len(),
        0 <= j < order.len(),
    ensures
        is_beat_order(swap_beats(order, i, j)),
        swap_beats(order, i, j).len() == order.len(),
{
    let o2 = swap_beats(order, i, j);
    assert forall|a: int, b: int| 0 <= a < b < o2.len() implies o2[a] != o2[b] by {
        let sa = if a == i {
            j
        } else if a == j {
            i
        } else {
            a
        };
        let sb = if b == i {
            j
        } else if b == j {
            i
        } else {
            b
        };
        assert(o2[a] == order[sa]);
        assert(o2[b] == order[sb]);
        if sa < sb {
        } else {
            assert(sb < sa);
        }
    }
    assert forall|a: int| 0 <= a < o2.len() implies #[trigger] o2[a] < o2.len() by {
        if a == i {
            assert(o2[a] == order[j] || a == j);
        }
    }
}

/// Shuffling keeps an order of beats an order of beats: whatever the draws,
/// every beat is still played exactly once per bar.
pub proof fn lemma_shuffle_keeps_beat_order(order: Seq<usize>, draws: Seq<usize>, t: nat)
    requires
        is_beat_order(order),
        valid_draws(order.len(), draws),
    ensures
        is_beat_order(shuffle_from(order, draws, t)),
        shuffle_from(order, draws, t).len() == order.len(),
    decreases draws.len() - t,
{
    if t < draws.len() {
        let i = order.len() - 1 - t;
        let j = draws[t as int] as int;
        assert(draws[t as int] <= order.len() - 1 - t);
        lemma_swap_keeps_beat_order(order, i, j);
        lemma_shuffle_keeps_beat_order(swap_beats(order, i, j), draws, t + 1);
    }
}

/// The beats in their natural order are an order of beats.
pub proof fn lemma_identity_is_beat_order(n: nat)
    requires
        n <= usize::MAX,
    ensures
        is_beat_order(identity_order(n)),
{
    let o = identity_order(n);
    assert forall|i: int| 0 <= i < o.len() implies #[trigger] o[i] < o.len() && o[i] == i by {}
}

/// Replays the previous bar beat by beat in an order reshuffled every bar.
pub struct ScrambleDelay {
    samples_per_beat: usize,
    samples_per_bar: usize,
    sample_index: usize,
    index: usize,
    count: usize,
    bar_start: usize,
    beat_index: usize,
    order: Vec<usize>,
    fade_out: usize,
}

impl View for ScrambleDelay {
    type V = ScrambleDelayState;

    closed spec fn view(&self) -> ScrambleDelayState {
        ScrambleDelayState {
            samples_per_beat: self.samples_per_beat,
            samples_per_bar: self.samples_per_bar,
            sample_index: self.sample_index,
            index: self.index,
            count: self.count,
            bar_start: self.bar_start,
            beat_index: self.beat_index,
            order: self.order@,
            fade_out: self.fade_out,
        }
    }
}

impl ScrambleDelay {
    /// A scrambling delay over bars of `beats_per_repeat` beats of
    /// `samples_per_beat` samples, its first order shuffled with `draws`.
    pub fn new(samples_per_beat: usize, beats_per_repeat: usize, draws: &Vec<usize>) -> (delay: Self)
        requires
            samples_per_beat >= FADE_SAMPLE_COUNT,
            samples_per_beat * beats_per_repeat <= usize::MAX,
            valid_draws(beats_per_repeat as nat, draws@),
        ensures
            delay@ == scramble_init(samples_per_beat, beats_per_repeat, draws@),
            scramble_wf(delay@),
    {
        let b = beats_per_repeat;
        let mut order: Vec<usize> = Vec::new();
        for i in 0..b
            invariant
                order@ == identity_order(i as nat),
        {
            order.push(i);
            assert(order@ =~= identity_order((i + 1) as nat));
        }
        let mut delay = ScrambleDelay {
            samples_per_beat,
            samples_per_bar: samples_per_beat * b,
            sample_index: 0,
            index: 0,
            count: 0,
            bar_start: 0,
            beat_index: 0,
            order,
            fade_out: samples_per_beat - FADE_SAMPLE_COUNT,
        };
        proof {
            lemma_identity_is_beat_order(b as nat);
            lemma_shuffle_keeps_beat_order(identity_order(b as nat), draws@, 0);
        }
        delay.shuffle(draws);
        delay
    }

    /// The number of beats in a bar, which is how many positions a shuffle
    /// draws for (one fewer than this).
    pub fn beats(&self) -> (n: usize)
        ensures
            n == self@.order.len(),
    {
        self.order.len()
    }

    /// Whether `draws` are fit for shuffling `beats` beats.
    pub fn draws_fit(beats: usize, draws: &Vec<usize>) -> (r: bool)
        ensures
            r == valid_draws(beats as nat, draws@),
    {
        let wanted: usize = if beats == 0 {
            0
        } else {
            beats - 1
        };
        if draws.len() != wanted {
            return false;
        }
        let mut t: usize = 0;
        while t < draws.len()
            invariant
                t <= draws.len(),
                draws.len() == wanted,
                wanted == (if beats == 0 {
                    0
                } else {
                    beats - 1
                }),
                forall|u: int| 0 <= u < t ==> #[trigger] draws@[u] <= beats - 1 - u,
            decreases draws.len() - t,
        {
            if draws[t] > beats - 1 - t {
                return false;
            }
            t = t + 1;
        }
        true
    }

    /// Whether the next sample starts a new bar and so needs fresh draws.
    pub fn starts_bar(&self) -> (r: bool)
        ensures
            r == scramble_starts_bar(self@),
    {
        self.sample_index >= self.samples_per_bar && self.count == 0 && self.beat_index
            == self.order.len()
    }

    /// Whether the next sample can be taken.
    pub fn can_step(&self) -> (r: bool)
        ensures
            r == scramble_can_step(self@),
    {
        self.sample_index < usize::MAX && (!(self.sample_index >= self.samples_per_bar
            && self.count == 0) || self.order.len() >= 1)
    }

    fn swap(&mut self, i1: usize, i2: usize)
        requires
            i1 < old(self).order.len(),
            i2 < old(self).order.len(),
        ensures
            final(self)@ == (ScrambleDelayState {
                order: swap_beats(old(self)@.order, i1 as int, i2 as int),
                ..old(self)@
            }),
    {
        let t = self.order[i1];
        let o2 = self.order[i2];
        self.order.set(i1, o2);
        self.order.set(i2, t);
    }

    fn shuffle(&mut self, draws: &Vec<usize>)
        requires
            valid_draws(old(self)@.order.len(), draws@),
            is_beat_order(old(self)@.order),
        ensures
            final(self)@ == (ScrambleDelayState {
                order: shuffled(old(self)@.order, draws@),
                ..old(self)@
            }),
    {
        let n = self.order.len();
        let ghost start = self@;
        if n > 1 {
            let mut i = n - 1;
            while i >= 1
                invariant
                    1 <= n,
                    i < n,
                    self@.order.len() == n,
                    valid_draws(n as nat, draws@),
                    self@ == (ScrambleDelayState { order: self@.order, ..start }),
                    shuffle_from(self@.order, draws@, (n - 1 - i) as nat) == shuffled(
                        start.order,
                        draws@,
                    ),
                decreases i,
            {
                let t = n - 1 - i;
                let i2 = draws[t];
                assert(draws@[t as int] <= n - 1 - t);
                self.swap(i, i2);
                assert(shuffle_from(self@.order, draws@, (n - 1 - (i - 1)) as nat) == shuffled(
                    start.order,
                    draws@,
                ));
                i = i - 1;
            }
        }
    }

    fn start_bar(&mut self, index: usize, draws: &Vec<usize>)
        requires
            valid_draws(old(self)@.order.len(), draws@),
            is_beat_order(old(self)@.order),
        ensures
            final(self)@ == (ScrambleDelayState {
                bar_start: index,
                order: shuffled(old(self)@.order, draws@),
                beat_index: 0,
                ..old(self)@
            }),
    {
        self.bar_start = index;
        self.shuffle(draws);
        self.beat_index = 0;
    }

    fn set_beat(&mut self)
        requires
            old(self).beat_index < old(self).order.len(),
            is_beat_order(old(self)@.order),
            old(self).samples_per_bar == old(self).samples_per_beat * old(self).order@.len(),
            old(self).bar_start + old(self).samples_per_bar <= usize::MAX,
        ensures
            final(self)@ == (ScrambleDelayState {
                index: (old(self).bar_start + old(self).order@[old(self).beat_index as int]
                    * old(self).samples_per_beat) as usize,
                ..old(self)@
            }),
            final(self).index + final(self).samples_per_beat <= final(self).bar_start
                + final(self).samples_per_bar,
    {
        let current_beat = self.order[self.beat_index];
        assert(current_beat < self.order@.len());
        proof {
            crate::beat_delay::lemma_beat_fits(
                current_beat as int,
                self.order@.len() as int,
                self.samples_per_beat as int,
            );
        }
        self.index = self.bar_start + current_beat * self.samples_per_beat;
    }

    /// The output for the next sample; `draws` reshuffle the beats when a
    /// bar starts (see [`ScrambleDelay::starts_bar`]) and are unused otherwise.
    pub fn process_sample(&mut self, draws: &Vec<usize>) -> (tap: Tap)
        requires
            scramble_wf(old(self)@),
            scramble_can_step(old(self)@),
            scramble_starts_bar(old(self)@) ==> valid_draws(old(self)@.order.len(), draws@),
        ensures
            (final(self)@, tap) == scramble_step(old(self)@, draws@),
            scramble_wf(final(self)@),
    {
        let index = self.sample_index;
        self.sample_index = self.sample_index + 1;
        if index < self.samples_per_bar {
            Tap::Silent
        } else {
            if self.count == 0 {
                if self.beat_index == self.order.len() {
                    proof {
                        lemma_shuffle_keeps_beat_order(self@.order, draws@, 0);
                    }
                    self.start_bar(index - self.samples_per_bar, draws);
                }
                self.set_beat();
                self.beat_index = self.beat_index + 1;
            }
            let gain = fade_in_span(self.count, self.samples_per_beat, self.fade_out);
            let position = self.index;
            self.count = self.count + 1;
            self.index = self.index + 1;
            if self.count == self.samples_per_beat {
                self.count = 0;
            }
            Tap::Read { position, gain }
        }
    }
}

/// Where a [`ScrambleDelay`] stands once the samples `0..n` have gone
/// through it: still silent during the first bar; afterwards `m = n - bar`
/// samples have been played, the last of them in overall beat
/// `k = (m - 1) / samples_per_beat`, which is slot `k % beats` of the order
/// for replayed bar `k / beats`.
pub open spec fn scramble_after(s: ScrambleDelayState, n: nat) -> bool {
    let bar = s.samples_per_bar as int;
    let spb = s.samples_per_beat as int;
    let beats = s.order.len() as int;
    &&& s.sample_index == n
    &&& if n <= bar {
        &&& s.count == 0
        &&& s.beat_index == 0
        &&& s.bar_start == 0
    } else {
        let m = n - bar;
        let k = (m - 1) / spb;
        &&& s.count == m % spb
        &&& s.beat_index == k % beats + 1
        &&& s.bar_start == (k / beats) * bar
        &&& s.index == s.bar_start + s.order[k % beats] * spb + (m - 1) % spb + 1
    }
}

/// The recording position a scrambling delay with beat order `order` plays
/// at sample `n`, once past its first bar: with `m = n - bar` and
/// `k = m / samples_per_beat`, sample `m % samples_per_beat` of beat
/// `order[k % beats]` of bar `k / beats`, the bar before the one being played.
pub open spec fn scramble_position(s: ScrambleDelayState, order: Seq<usize>, n: nat) -> int {
    let bar = s.samples_per_bar as int;
    let spb = s.samples_per_beat as int;
    let beats = order.len() as int;
    let m = n - bar;
    let k = m / spb;
    (k / beats) * bar + order[k % beats] * spb + m % spb
}

/// A new scrambling delay has taken in no samples yet.
pub proof fn lemma_scramble_new_is_fresh(
    samples_per_beat: usize,
    beats_per_repeat: usize,
    draws: Seq<usize>,
)
    ensures
        scramble_after(scramble_init(samples_per_beat, beats_per_repeat, draws), 0),
{
}

/// Fed the samples in order, a `ScrambleDelay` is silent for the first bar
/// and then replays the previous bar beat by beat in its shuffled order: at
/// sample `n` it plays `scramble_position` for the order in force (which is
/// reshuffled as each bar starts), a position inside the previous bar, with
/// the fade of the sample's place in its beat.  As the order is a
/// permutation of the beats, each bar plays every beat of the previous bar
/// exactly once.
pub proof fn lemma_scramble_replays_previous_bar_shuffled(s: ScrambleDelayState, draws: Seq<usize>)
    requires
        scramble_wf(s),
        scramble_can_step(s),
        scramble_starts_bar(s) ==> valid_draws(s.order.len(), draws),
        scramble_after(s, s.sample_index as nat),
    ensures
        ({
            let (s2, tap) = scramble_step(s, draws);
            let n = s.sample_index as nat;
            let bar = s.samples_per_bar as int;
            let spb = s.samples_per_beat as int;
            let m = n - bar;
            let bar_start = ((m / spb) / (s.order.len() as int)) * bar;
            &&& n < bar ==> tap == Tap::Silent
            &&& n >= bar ==> {
                &&& tap == Tap::Read {
                    position: scramble_position(s, s2.order, n) as usize,
                    gain: span_fade((m % spb) as usize, s.samples_per_beat, s.fade_out),
                }
                &&& bar_start <= scramble_position(s, s2.order, n) < bar_start + bar
                &&& bar_start + bar <= n
            }
            &&& is_beat_order(s2.order)
            &&& scramble_after(s2, n + 1)
        }),
{
    let bar = s.samples_per_bar as int;
    let d = s.samples_per_beat as int;
    let b = s.order.len() as int;
    let n = s.sample_index as int;
    let s2 = scramble_step(s, draws).0;
    assert(0 * d == 0 && 0 * bar == 0) by (nonlinear_arith);
    if n >= bar && s.count == 0 && s.beat_index == s.order.len() {
        lemma_shuffle_keeps_beat_order(s.order, draws, 0);
    }
    if n < bar {
        return;
    }
    assert(b >= 1);
    assert(bar >= d) by (nonlinear_arith)
        requires
            bar == d * b,
            b >= 1,
            d >= 0,
    ;
    let m = n - bar;
    lemma_fundamental_div_mod(m, d);
    let q = m / d;
    let r = m % d;
    lemma_fundamental_div_mod(q, b);
    let o2 = s2.order;
    assert(is_beat_order(o2));
    assert(o2.len() == b);
    let j = q % b;
    assert(o2[j] < b);
    assert((q / b) * bar <= (q / b) * bar + o2[j] * d + r < (q / b) * bar + bar) by (nonlinear_arith)
        requires
            0 <= o2[j] < b,
            0 <= r < d,
            bar == d * b,
    ;
    let t = q / b;
    assert(t * bar == (t * b) * d) by (nonlinear_arith)
        requires
            bar == d * b,
    ;
    assert(t * b <= q);
    assert((t * b) * d <= q * d) by (nonlinear_arith)
        requires
            t * b <= q,
            d >= 0,
    ;
    assert(d * q == q * d) by (nonlinear_arith);
    assert(t * bar + bar <= n);
    if m == 0 {
        lemma_fundamental_div_mod_converse(0, d, 0, 0);
        lemma_fundamental_div_mod_converse(0, b, 0, 0);
        lemma_fundamental_div_mod_converse(1, d, 0, 1);
        assert(scramble_step(s, draws).1 == Tap::Read {
            position: scramble_position(s, o2, n as nat) as usize,
            gain: span_fade((m % d) as usize, s.samples_per_beat, s.fade_out),
        });
    } else {
        let k = (m - 1) / d;
        lemma_fundamental_div_mod(k, b);
        if r == 0 {
            assert(m - 1 == (q - 1) * d + (d - 1)) by (nonlinear_arith)
                requires
                    m == d * q,
            ;
            lemma_fundamental_div_mod_converse(m - 1, d, q - 1, d - 1);
            assert(m + 1 == q * d + 1) by (nonlinear_arith)
                requires
                    m == d * q,
            ;
            lemma_fundamental_div_mod_converse(m + 1, d, q, 1);
            if k % b + 1 == b {
                assert(q == (k / b + 1) * b + 0) by (nonlinear_arith)
                    requires
                        q == k + 1,
                        k == b * (k / b) + k % b,
                        k % b + 1 == b,
                ;
                lemma_fundamental_div_mod_converse(q, b, k / b + 1, 0);
                assert((q / b) * bar == m) by (nonlinear_arith)
                    requires
                        q == (q / b) * b,
                        bar == d * b,
                        m == d * q,
                ;
            } else {
                assert(q == (k / b) * b + (k % b + 1)) by (nonlinear_arith)
                    requires
                        q == k + 1,
                        k == b * (k / b) + k % b,
                ;
                lemma_fundamental_div_mod_converse(q, b, k / b, k % b + 1);
            }
        } else {
            assert(m - 1 == q * d + (r - 1)) by (nonlinear_arith)
                requires
                    m == d * q + r,
            ;
            lemma_fundamental_div_mod_converse(m - 1, d, q, r - 1);
            if r + 1 == d {
                assert(m + 1 == (q + 1) * d + 0) by (nonlinear_arith)
                    requires
                        m == d * q + r,
                        r + 1 == d,
                ;
                lemma_fundamental_div_mod_converse(m + 1, d, q + 1, 0);
            } else {
                assert(m + 1 == q * d + (r + 1)) by (nonlinear_arith)
                    requires
                        m == d * q + r,
                ;
                lemma_fundamental_div_mod_converse(m + 1, d, q, r + 1);
            }
        }
    }
}

/// Steps from `t` on never touch the positions at or above
/// `order.len() - t`: the Fisher-Yates shuffle settles the order from the
/// end, one position per draw.
pub proof fn lemma_shuffle_keeps_settled_positions(order: Seq<usize>, draws: Seq<usize>, t: nat, p: int)
    requires
        valid_draws(order.len(), draws),
        t <= draws.len(),
        order.len() - t <= p < order.len(),
    ensures
        shuffle_from(order, draws, t)[p] == order[p],
        shuffle_from(order, draws, t).len() == order.len(),
    decreases draws.len() - t,
{
    if t < draws.len() {
        let i = order.len() - 1 - t;
        let j = draws[t as int] as int;
        assert(draws[t as int] <= order.len() - 1 - t);
        lemma_swap_beats_exchanges(order, i, j);
        lemma_shuffle_keeps_settled_positions(swap_beats(order, i, j), draws, t + 1, p);
    }
}

/// Fisher-Yates: the first draw picks the beat played last in the new order,
/// and draws that each pick their own position leave the order as it was.
pub proof fn lemma_shuffle_is_fisher_yates(order: Seq<usize>, draws: Seq<usize>)
    requires
        valid_draws(order.len(), draws),
    ensures
        order.len() >= 2 ==> shuffled(order, draws)[order.len() - 1] == order[draws[0] as int],
        (forall|t: int| 0 <= t < draws.len() ==> #[trigger] draws[t] == order.len() - 1 - t)
            ==> shuffled(order, draws) == order,
{
    if order.len() >= 2 {
        let i = order.len() - 1;
        let j = draws[0] as int;
        assert(draws[0] <= order.len() - 1);
        lemma_swap_beats_exchanges(order, i, j);
        lemma_shuffle_keeps_settled_positions(swap_beats(order, i, j), draws, 1, i);
    }
    if forall|t: int| 0 <= t < draws.len() ==> #[trigger] draws[t] == order.len() - 1 - t {
        lemma_shuffle_without_swaps(order, draws, 0);
    }
}

proof fn lemma_shuffle_without_swaps(order: Seq<usize>, draws: Seq<usize>, t: nat)
    requires
        valid_draws(order.len(), draws),
        forall|u: int| 0 <= u < draws.len() ==> #[trigger] draws[u] == order.len() - 1 - u,
    ensures
        shuffle_from(order, draws, t) == order,
    decreases draws.len() - t,
{
    if t < draws.len() {
        let i = order.len() - 1 - t;
        assert(draws[t as int] == i);
        assert(swap_beats(order, i, i) =~= order);
        lemma_shuffle_without_swaps(order, draws, t + 1);
    }
}

/// The beat order is reshuffled with the draws exactly when a bar starts,
/// and stays as it is on every other sample.
pub proof fn lemma_scramble_reshuffles_each_bar(s: ScrambleDelayState, draws: Seq<usize>)
    ensures
        scramble_starts_bar(s) ==> scramble_step(s, draws).0.order == shuffled(s.order, draws),
        !scramble_starts_bar(s) ==> scramble_step(s, draws).0.order == s.order,
{
}

} // verus!
