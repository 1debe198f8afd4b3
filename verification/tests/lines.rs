use igor::echo::Echo;
use igor::metronome::{click_for_tick, Click, Metronome};
use igor::streamer::{Echo as StreamEcho, LATENCY_SAMPLES};
use igor::tap::{fade_in_span, Gain};
use igor::transport::Transport;

#[test]
fn echo_delays_by_its_latency() {
    // 2 frames of 2 channels: a delay of 4 samples
    let mut e = Echo::new(2, 2);
    let inputs: Vec<f32> = (1..=12).map(|i| i as f32 * 0.125).collect();
    let mut outputs = Vec::new();
    for x in &inputs {
        outputs.push(f32::from_bits(e.process_sample(x.to_bits())));
    }
    assert_eq!(&outputs[0..4], &[0.0, 0.0, 0.0, 0.0]);
    assert_eq!(&outputs[4..], &inputs[0..8]);
}

#[test]
fn echo_of_one_sample_passes_the_previous_input() {
    let mut e = Echo::new(1, 1);
    assert_eq!(e.process_sample(7), 0);
    assert_eq!(e.process_sample(8), 7);
    assert_eq!(e.process_sample(9), 8);
}

#[test]
fn streamer_drops_its_first_input() {
    let mut e = StreamEcho::new();
    let mut outputs = Vec::new();
    for i in 1..=(LATENCY_SAMPLES as u32 + 5) {
        outputs.push(e.process_sample(i));
    }
    assert!(outputs[..LATENCY_SAMPLES].iter().all(|&o| o == 0));
    // input 1 was dropped; input 2 comes out LATENCY_SAMPLES - 1 samples later
    assert_eq!(&outputs[LATENCY_SAMPLES..], &[2, 3, 4, 5, 6]);
}

#[test]
fn click_envelope_parts() {
    assert_eq!(click_for_tick(0), Click::Rising(0));
    assert_eq!(click_for_tick(9), Click::Rising(9));
    assert_eq!(click_for_tick(10), Click::Steady(10));
    assert_eq!(click_for_tick(448), Click::Steady(448));
    assert_eq!(click_for_tick(449), Click::Falling(449));
    assert_eq!(click_for_tick(511), Click::Falling(511));
    assert_eq!(click_for_tick(512), Click::Silent);
}

#[test]
fn metronome_clicks_once_per_beat() {
    let mut m = Metronome::new(300, 2);
    assert_eq!(m.samples_per_beat(), 600);
    let mut rises = 0;
    for _ in 0..1800 {
        if m.next_click() == Click::Rising(0) {
            rises += 1;
        }
    }
    assert_eq!(rises, 3);
    assert_eq!(m.tick(), 0);
}

#[test]
fn metronome_tempo_change_restarts_a_long_count() {
    let mut m = Metronome::new(300, 2);
    for _ in 0..500 {
        m.next_click();
    }
    assert_eq!(m.tick(), 500);
    m.set_frames_per_beat(200);
    assert_eq!(m.samples_per_beat(), 400);
    assert_eq!(m.tick(), 0);
    for _ in 0..300 {
        m.next_click();
    }
    m.set_frames_per_beat(150);
    assert_eq!(m.tick(), 300);
}

#[test]
fn transport_records_round_the_buffer() {
    let mut t = Transport::new(5, Metronome::new(3, 1));
    assert_eq!(t.count_in(), Click::Rising(0));
    assert_eq!(t.count_in(), Click::Rising(1));
    let frames: Vec<_> = (0..7).map(|_| t.record()).collect();
    let at: Vec<usize> = frames.iter().map(|f| f.write_at).collect();
    assert_eq!(at, vec![0, 1, 2, 3, 4, 0, 1]);
    assert_eq!(frames[4].wrapped, true);
    assert_eq!(frames[3].wrapped, false);
    // the metronome went on from where the count-in left it
    assert_eq!(frames[0].click, Click::Rising(2));
    assert_eq!(frames[1].click, Click::Rising(0));
    assert_eq!(t.metronome_tick(), 0);
}

#[test]
fn fades_ramp_in_and_out() {
    assert_eq!(fade_in_span(0, 200, 150), Gain::Faded(0));
    assert_eq!(fade_in_span(49, 200, 150), Gain::Faded(49));
    assert_eq!(fade_in_span(50, 200, 150), Gain::Full);
    assert_eq!(fade_in_span(150, 200, 150), Gain::Full);
    assert_eq!(fade_in_span(151, 200, 150), Gain::Faded(49));
    assert_eq!(fade_in_span(199, 200, 150), Gain::Faded(1));
}

#[test]
fn echo_reports_its_room_and_fit() {
    assert!(Echo::fits(2, 2));
    assert!(!Echo::fits(usize::MAX / 2, 2));
    assert!(!Echo::fits(usize::MAX / 4, 1));
    let full = Echo::new(0, 2);
    assert!(!full.has_room());
    let mut e = Echo::new(3, 1);
    assert!(e.has_room());
    e.process_sample(1);
    assert!(e.has_room());
}
