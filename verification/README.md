# igor

The verified core of a live-looping guitar rig: the audio host records the
input, plays it through fuzz and distortion effects, and plays recorded bars
back through loop and delay effects while a metronome clicks along.

The sample arithmetic is floating point and stays with the host (`app/`).
What is verified (`src/`) is the integer bookkeeping every effect makes for
each sample: which recorded sample is heard, with which fade
(`tap::Tap`), how the effect's counters and beat orders move on, how many
fuzz passes a sample gets, which part of a metronome click it falls in, and
the ring-buffer delay lines of the echoes (carrying samples as `f32` bits).

Each effect has an abstract state (its `View`), an open spec step function,
and a `process_sample` whose contract is exactly that step.  The laws are
proof functions beside them: the beat delay replays the previous bar, the
loops repeat the first bars, the Lynch delay plays backwards, shuffles keep
every beat, the echo is a delay line of exactly its latency, and so on.
