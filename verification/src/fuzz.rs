//! Fuzz effects: the number of cubic-amplifier passes applied to a sample.
use vstd::prelude::*;

verus! {

/// The largest number of amplifier passes a fuzz applies.
pub const MAX_FUZZ: i32 = 2;

/// Number of samples between two intensity changes of a [`Fuzzicle`].
pub const FUZZICLE_PERIOD: i32 = 100_000;

/// `r` clamped into `0..=MAX_FUZZ`.
pub open spec fn clamp_reps(r: i32) -> i32 {
    if r < 0 {
        0
    } else if r > MAX_FUZZ {
        MAX_FUZZ
    } else {
        r
    }
}

/// Straight fuzz: a fixed, quantized amount of fuzziness.
pub struct Fuzz {
    reps: i32,
}

impl View for Fuzz {
    type V = i32;

    /// The number of amplifier passes.
    closed spec fn view(&self) -> i32 {
        self.reps
    }
}

impl Fuzz {
    /// A fuzz with `r` passes, clamped into `0..=MAX_FUZZ`.
    pub fn new(r: i32) -> (fuzz: Self)
        ensures
            fuzz@ == clamp_reps(r),
    {
        let mut r2 = r;
        if r2 < 0 {
            r2 = 0;
        } else if r2 > MAX_FUZZ {
            r2 = MAX_FUZZ;
        }
        Fuzz { reps: r2 }
    }

    /// The number of amplifier passes applied to a loud enough sample.
    pub fn reps(&self) -> (r: i32)
        ensures
            r == self@,
            0 <= r <= MAX_FUZZ,
    {
        proof {
            use_type_invariant(self);
        }
        self.reps
    }

    #[verifier::type_invariant]
    spec fn in_range(self) -> bool {
        0 <= self.reps <= MAX_FUZZ
    }
}

/// The abstract state of a [`Fuzzicle`].
pub struct FuzzicleState {
    /// Current number of amplifier passes.
    pub reps: i32,
    /// Samples seen since the last intensity change.
    pub i: i32,
    /// Direction of the next intensity change, `1` or `-1`.
    pub d: i32,
}

/// The state a [`Fuzzicle`] moves to on one sample.
pub open spec fn fuzzicle_next(s: FuzzicleState) -> FuzzicleState {
    if s.i == FUZZICLE_PERIOD {
        let reps = (s.reps + s.d) as i32;
        let d = if reps == MAX_FUZZ {
            -1i32
        } else if reps == 0 {
            1i32
        } else {
            s.d
        };
        FuzzicleState { reps, i: 1, d }
    } else {
        FuzzicleState { reps: s.reps, i: (s.i + 1) as i32, d: s.d }
    }
}

/// The intensity sweeps back and forth between `0` and `MAX_FUZZ`.
pub open spec fn fuzzicle_sweeping(s: FuzzicleState) -> bool {
    &&& 0 <= s.reps <= MAX_FUZZ
    &&& s.reps == MAX_FUZZ ==> s.d == -1
    &&& s.reps == 0 ==> s.d == 1
}

/// The state `Fuzzicle::new(r)` makes: `r` passes, clamped, heading
/// inwards: upwards, unless it starts at the top.
pub open spec fn fuzzicle_init(r: i32) -> FuzzicleState {
    FuzzicleState {
        reps: clamp_reps(r),
        i: 0,
        d: if clamp_reps(r) == MAX_FUZZ {
            -1i32
        } else {
            1i32
        },
    }
}

/// What one sample through a [`Fuzzicle`] decides.
pub struct Intensity {
    /// Number of amplifier passes applied to this sample.
    pub reps: i32,
    /// Whether the intensity changed on this sample.
    pub changed: bool,
}

/// A fuzz whose intensity sweeps through the fuzz steps, one step every
/// `FUZZICLE_PERIOD` samples.
pub struct Fuzzicle {
    reps: i32,
    i: i32,
    d: i32,
}

impl View for Fuzzicle {
    type V = FuzzicleState;

    closed spec fn view(&self) -> FuzzicleState {
        FuzzicleState { reps: self.reps, i: self.i, d: self.d }
    }
}

impl Fuzzicle {
    #[verifier::type_invariant]
    spec fn well_formed(self) -> bool {
        &&& 0 <= self.i <= FUZZICLE_PERIOD
        &&& (self.d == 1 || self.d == -1)
        &&& fuzzicle_sweeping(self@)
    }

    /// A sweeping fuzz that starts at `r` passes (clamped), heading
    /// inwards.
    pub fn new(r: i32) -> (fuzz: Self)
        ensures
            fuzz@ == fuzzicle_init(r),
    {
        let mut r2 = r;
        if r2 < 0 {
            r2 = 0;
        } else if r2 > MAX_FUZZ {
            r2 = MAX_FUZZ;
        }
        let d: i32 = if r2 == MAX_FUZZ {
            -1
        } else {
            1
        };
        Fuzzicle { reps: r2, i: 0, d }
    }

    /// Moves on by one sample; returns the passes for that sample.
    pub fn process_sample(&mut self) -> (out: Intensity)
        ensures
            final(self)@ == fuzzicle_next(old(self)@),
            out.reps == final(self)@.reps,
            out.changed == (old(self)@.i == FUZZICLE_PERIOD),
            0 <= out.reps <= MAX_FUZZ,
            fuzzicle_sweeping(old(self)@),
            old(self)@.d == 1 || old(self)@.d == -1,
            0 <= old(self)@.i <= FUZZICLE_PERIOD,
            fuzzicle_sweeping(final(self)@),
            final(self)@.d == 1 || final(self)@.d == -1,
            0 <= final(self)@.i <= FUZZICLE_PERIOD,
    {
        proof {
            use_type_invariant(&*self);
        }
        let mut changed = false;
        let mut reps = self.reps;
        let mut d = self.d;
        let mut i = self.i;
        if i == FUZZICLE_PERIOD {
            reps = reps + d;
            if reps == MAX_FUZZ {
                d = -1;
            } else if reps == 0 {
                d = 1;
            }
            i = 0;
            changed = true;
        }
        i = i + 1;
        *self = Fuzzicle { reps, i, d };
        proof {
            use_type_invariant(&*self);
        }
        Intensity { reps: self.reps, changed }
    }
}

/// Once the sweep is between `0` and `MAX_FUZZ`, heading inwards at the ends,
/// it stays there: every step keeps the pass count in `0..=MAX_FUZZ`.
pub proof fn lemma_fuzzicle_sweep_stays_in_range(s: FuzzicleState)
    requires
        fuzzicle_sweeping(s),
        s.d == 1 || s.d == -1,
    ensures
        fuzzicle_sweeping(fuzzicle_next(s)),
        fuzzicle_next(s).d == 1 || fuzzicle_next(s).d == -1,
{
}

/// Whatever it is made with, a sweeping fuzz starts a sweep that stays in
/// range: it loops through the fuzz steps `0..=MAX_FUZZ`.
pub proof fn lemma_fuzzicle_new_sweeps(r: i32)
    ensures
        fuzzicle_sweeping(fuzzicle_init(r)),
        fuzzicle_init(r).d == 1 || fuzzicle_init(r).d == -1,
{
}

} // verus!
