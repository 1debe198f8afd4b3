use igor::beat_delay::BeatDelay;
use igor::delay::Delay;
use igor::fuzz::{Fuzz, Fuzzicle, FUZZICLE_PERIOD, MAX_FUZZ};
use igor::lynch_delay::LynchDelay;
use igor::poly_loop::PolyLoop;
use igor::scramble_delay::ScrambleDelay;
use igor::symsoftclip::SymSoftClip;
use igor::tap::{Gain, Tap};
use igor::truncate_delay::TruncateDelay;

fn fraction(numerator: usize) -> Gain {
    Gain::Fraction { numerator, denominator: 100 }
}

fn read(position: usize, gain: Gain) -> Tap {
    Tap::Read { position, gain }
}

#[test]
fn fuzz_new_clamps_the_passes() {
    assert_eq!(Fuzz::new(-3).reps(), 0);
    assert_eq!(Fuzz::new(0).reps(), 0);
    assert_eq!(Fuzz::new(1).reps(), 1);
    assert_eq!(Fuzz::new(2).reps(), 2);
    assert_eq!(Fuzz::new(7).reps(), MAX_FUZZ);
}

#[test]
fn fuzzicle_changes_intensity_once_per_period() {
    let mut f = Fuzzicle::new(0);
    for _ in 0..FUZZICLE_PERIOD {
        let step = f.process_sample();
        assert_eq!(step.reps, 0);
        assert!(!step.changed);
    }
    let step = f.process_sample();
    assert_eq!(step.reps, 1);
    assert!(step.changed);
}

#[test]
fn fuzzicle_sweeps_up_and_down() {
    let mut f = Fuzzicle::new(-5);
    let mut seen = Vec::new();
    for _ in 0..(5 * FUZZICLE_PERIOD + 1) {
        let step = f.process_sample();
        assert!(step.reps >= 0 && step.reps <= MAX_FUZZ);
        if step.changed {
            seen.push(step.reps);
        }
    }
    assert_eq!(seen, vec![1, 2, 1, 0, 1]);
}

#[test]
fn fuzzicle_started_at_the_top_sweeps_down() {
    let mut f = Fuzzicle::new(2);
    let mut seen = Vec::new();
    for _ in 0..(5 * FUZZICLE_PERIOD + 1) {
        let step = f.process_sample();
        assert!(step.reps >= 0 && step.reps <= MAX_FUZZ);
        if step.changed {
            seen.push(step.reps);
        }
    }
    assert_eq!(seen, vec![1, 0, 1, 2, 1]);
}

#[test]
fn symsoftclip_new_builds() {
    let _clip = SymSoftClip::new();
}

#[test]
fn delay_reads_a_repeat_back() {
    let mut d = Delay::new(100, 2);
    assert!(d.can_read(199));
    assert_eq!(d.process_sample(0), Tap::Silent);
    assert_eq!(d.process_sample(199), Tap::Silent);
    assert_eq!(d.process_sample(200), read(0, Gain::Full));
    assert_eq!(d.process_sample(250), read(50, Gain::Full));
}

#[test]
fn delay_truncates_huge_beats_to_i32() {
    // 2^32 + 10 samples per beat is taken as 10.
    let mut d = Delay::new((1usize << 32) + 10, 3);
    assert_eq!(d.process_sample(30), read(0, Gain::Full));
}

#[test]
fn lynch_delay_plays_backwards_with_fades() {
    let mut d = LynchDelay::new(100, 2);
    // back starts at 99: 101 - 200 + 99 = 0
    assert!(d.can_read(101));
    assert_eq!(d.process_sample(100), Tap::Silent);
    assert_eq!(d.process_sample(101), read(0, fraction(1)));
    // back is now 97: 102 - 200 + 97 = -1
    assert_eq!(d.process_sample(102), Tap::Silent);
    assert_eq!(d.process_sample(300), read(197, fraction(3)));
    // back 95 .. down by two per read
    assert_eq!(d.process_sample(301), read(196, fraction(5)));
}

#[test]
fn lynch_delay_wraps_after_a_beat() {
    // back runs 59, 57, .., -59 on samples 1000..1059; at -61 (sample 1060) it wraps
    let mut d = LynchDelay::new(60, 1);
    let mut muted_at = Vec::new();
    for n in 1000..1100usize {
        if let Tap::Read { gain: Gain::Muted, .. } = d.process_sample(n) {
            muted_at.push(n);
        }
    }
    assert_eq!(muted_at, vec![1060]);
}

#[test]
fn beat_delay_replays_the_previous_bar() {
    let mut d = BeatDelay::new(50, 3);
    for n in 0..150usize {
        assert_eq!(d.process_sample(n), Tap::Silent);
    }
    for n in 150..1000usize {
        assert_eq!(d.process_sample(n), read(n - 150, Gain::Full));
    }
}

#[test]
fn poly_loop_loops_the_first_bars() {
    let mut p = PolyLoop::new(50, 2, 1);
    for n in 0..50usize {
        assert_eq!(p.process_sample(n), (Tap::Silent, Tap::Silent));
    }
    assert_eq!(p.process_sample(50), (Tap::Silent, read(1, Gain::Faded(0))));
    for n in 51..100usize {
        let (a, _) = p.process_sample(n);
        assert_eq!(a, Tap::Silent);
    }
    let (a, b) = p.process_sample(100);
    assert_eq!(a, read(1, Gain::Faded(0)));
    assert_eq!(b, read(1, Gain::Faded(0)));
    for n in 101..400usize {
        let (a, b) = p.process_sample(n);
        match (a, b) {
            (Tap::Read { position: pa, .. }, Tap::Read { position: pb, .. }) => {
                assert_eq!(pa, (n - 100 + 1) % 100);
                assert_eq!(pb, (n - 50 + 1) % 50);
            }
            _ => panic!("both loops play"),
        }
    }
}

#[test]
fn poly_loop_fades_the_loop_ends() {
    let mut p = PolyLoop::new(50, 2, 2);
    let mut gains = Vec::new();
    for n in 0..200usize {
        let (a, _) = p.process_sample(n);
        if let Tap::Read { gain, .. } = a {
            gains.push(gain);
        }
    }
    assert_eq!(gains[0], Gain::Faded(0));
    assert_eq!(gains[49], Gain::Faded(49));
    assert_eq!(gains[50], Gain::Full);
    assert_eq!(gains[51], Gain::Faded(49));
    assert_eq!(gains[99], Gain::Faded(1));
}

#[test]
fn scramble_delay_shuffles_with_the_draws() {
    // positions 2 then 1 swapped with position 0: [0,1,2] -> [2,1,0] -> [1,2,0]
    let mut d = ScrambleDelay::new(50, 3, &vec![0, 0]);
    assert_eq!(d.beats(), 3);
    for _ in 0..150 {
        assert!(d.can_step());
        assert!(!d.starts_bar());
        assert_eq!(d.process_sample(&vec![]), Tap::Silent);
    }
    // the first beat starts at beat 1 of the bar, which is 50 samples in
    assert_eq!(d.process_sample(&vec![]), read(50, Gain::Faded(0)));
}

#[test]
fn scramble_delay_keeps_every_beat() {
    let mut d = ScrambleDelay::new(50, 4, &vec![1, 0, 0]);
    let mut starts = 0;
    for _ in 0..20000 {
        let draws = if d.starts_bar() {
            starts += 1;
            vec![3, 1, 1]
        } else {
            vec![]
        };
        if !d.can_step() {
            break;
        }
        let _ = d.process_sample(&draws);
    }
    assert!(starts >= 1);
}

#[test]
fn truncate_delay_replays_the_last_beats() {
    let mut d = TruncateDelay::new(50, 2);
    assert_eq!(d.beats_per_repeat(), 2);
    assert_eq!(d.process_sample(99, 0), Tap::Silent);
    assert!(d.starts_group(100));
    assert_eq!(d.process_sample(100, 0), read(50, Gain::Faded(0)));
    assert!(!d.starts_group(101));
    assert_eq!(d.process_sample(101, 0), read(51, Gain::Faded(1)));
    for n in 102..150usize {
        let t = d.process_sample(n, 0);
        assert_eq!(t, read(n - 50, if n - 100 < 50 { Gain::Faded(n - 100) } else { Gain::Full }));
    }
    // the group of one beat is over: a new one starts at 150
    assert!(d.starts_group(150));
    assert!(d.draw_fits(0));
    assert!(!d.draw_fits(1));
    assert_eq!(d.process_sample(150, 0), read(100, Gain::Faded(0)));
}

#[test]
fn lynch_delay_fade_in_stays_below_full() {
    let mut d = LynchDelay::new(200, 1);
    for _ in 0..49 {
        let _ = d.process_sample(1000);
    }
    // the head is at 101 back-units: 99 of the 100-unit fade
    assert_eq!(d.process_sample(1000), Tap::Read { position: 901, gain: fraction(99) });
    assert_eq!(d.process_sample(1000), Tap::Read { position: 899, gain: Gain::Full });
}

#[test]
fn scramble_delay_plays_whole_beats_in_the_shuffled_order() {
    // one draw, 0: [0, 1] -> [1, 0]
    let mut d = ScrambleDelay::new(50, 2, &vec![0]);
    for _ in 0..100 {
        assert_eq!(d.process_sample(&vec![]), Tap::Silent);
    }
    // the first replayed bar: beat 1, then beat 0, sample by sample
    for t in 0..50usize {
        assert_eq!(d.process_sample(&vec![]), read(50 + t, Gain::Faded(t)));
    }
    for t in 0..50usize {
        assert_eq!(d.process_sample(&vec![]), read(t, Gain::Faded(t)));
    }
    // the next bar reshuffles: draw 1 keeps [1, 0]; it replays the bar 100..200
    assert!(d.starts_bar());
    assert!(ScrambleDelay::draws_fit(2, &vec![1]));
    assert!(!ScrambleDelay::draws_fit(2, &vec![2]));
    assert!(!ScrambleDelay::draws_fit(2, &vec![]));
    assert_eq!(d.process_sample(&vec![1]), read(150, Gain::Faded(0)));
    for t in 1..50usize {
        assert_eq!(d.process_sample(&vec![]), read(150 + t, Gain::Faded(t)));
    }
    assert_eq!(d.process_sample(&vec![]), read(100, Gain::Faded(0)));
}
