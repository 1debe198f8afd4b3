//! Integer core of a live-looping guitar effects rig.
//!
//! Every effect of the rig is split in two: the sample arithmetic, which is
//! floating point and lives with the audio host, and the bookkeeping that
//! decides *which* recorded sample is heard, with which fade, and how the
//! effect's counters move on.  This crate holds the second half, verified.
pub mod tap;
pub mod ring;
pub mod fuzz;
pub mod symsoftclip;
pub mod delay;
pub mod lynch_delay;
pub mod beat_delay;
pub mod scramble_delay;
pub mod truncate_delay;
pub mod poly_loop;
pub mod echo;
pub mod streamer;
pub mod metronome;
pub mod transport;
