//! What a buffer-reading effect decides for one output sample.
use vstd::prelude::*;

verus! {

/// Length, in samples, of the fade that keeps a jump in the recording from
/// popping; a faded gain is a fraction of this many samples.
pub const FADE_SAMPLE_COUNT: usize = 50;

/// The factor a read sample is multiplied by.
#[derive(PartialEq, Eq, Structural, Debug, Clone, Copy)]
pub enum Gain {
    /// Unchanged.
    Full,
    /// Silenced.
    Muted,
    /// Scaled by `n / FADE_SAMPLE_COUNT`.
    Faded(usize),
    /// Scaled by `numerator / denominator`.
    Fraction { numerator: usize, denominator: usize },
}

/// A gain of at most one: it never makes a sample louder.
pub open spec fn gain_at_most_full(gain: Gain) -> bool {
    match gain {
        Gain::Full => true,
        Gain::Muted => true,
        Gain::Faded(n) => n <= FADE_SAMPLE_COUNT,
        Gain::Fraction { numerator, denominator } => numerator <= denominator,
    }
}

/// One output sample of a buffer-reading effect.
#[derive(PartialEq, Eq, Structural, Debug, Clone, Copy)]
pub enum Tap {
    /// Nothing is played.
    Silent,
    /// The recorded sample at `position` is played, scaled by `gain`.
    Read { position: usize, gain: Gain },
}

/// The fade of the sample `count` samples into a span of `length` samples
/// whose fade-out starts after `fade_out`: a ramp up over the first
/// `FADE_SAMPLE_COUNT` samples, a ramp down after `fade_out`.
pub open spec fn span_fade(count: usize, length: usize, fade_out: usize) -> Gain {
    if count < FADE_SAMPLE_COUNT {
        Gain::Faded(count)
    } else if count > fade_out {
        Gain::Faded((length - count) as usize)
    } else {
        Gain::Full
    }
}

/// Computes [`span_fade`].
pub fn fade_in_span(count: usize, length: usize, fade_out: usize) -> (gain: Gain)
    requires
        count <= length,
    ensures
        gain == span_fade(count, length, fade_out),
{
    if count < FADE_SAMPLE_COUNT {
        Gain::Faded(count)
    } else if count > fade_out {
        Gain::Faded(length - count)
    } else {
        Gain::Full
    }
}

/// The anti-pop fade of a span: the sample `count` into the span ramps up
/// as `count / FADE_SAMPLE_COUNT` over the first `FADE_SAMPLE_COUNT`
/// samples, is at full level from there up to `fade_out`, and ramps down as
/// `(length - count) / FADE_SAMPLE_COUNT` after it; when the ramp down
/// starts no earlier than `FADE_SAMPLE_COUNT` samples before the end of the
/// span, the fade never exceeds full level.
pub proof fn lemma_span_fade_shape(count: usize, length: usize, fade_out: usize)
    requires
        count <= length,
    ensures
        count < FADE_SAMPLE_COUNT ==> span_fade(count, length, fade_out) == Gain::Faded(count),
        FADE_SAMPLE_COUNT <= count <= fade_out ==> span_fade(count, length, fade_out)
            == Gain::Full,
        FADE_SAMPLE_COUNT <= count && count > fade_out ==> span_fade(count, length, fade_out)
            == Gain::Faded((length - count) as usize),
        fade_out + FADE_SAMPLE_COUNT >= length ==> gain_at_most_full(
            span_fade(count, length, fade_out),
        ),
{
}

} // verus!
