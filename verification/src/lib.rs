//! Player core for Pixel's Piyo Piyo (PMD) chiptune format.
//!
//! A [`Player`] is made from the bytes of a song file.
//! [`Player::render_next`] advances playback and fills a buffer with stereo
//! samples.
//!
//! The library computes what each sounding key contributes to a frame
//! exactly, as a [`Voice`]: an amplitude with the exponents of its gains.
//! Raising ten to those exponents takes floating point, which the library
//! leaves to its caller: `render_next` takes the function that turns a voice
//! into a stereo sample, and adds up what it returns, each addition
//! saturating.

pub mod event;
pub mod mix;
pub mod player;
pub mod read_cursor;
pub mod song;
pub mod track;

pub use crate::event::{piano_keys, Event, PianoKey, N_KEYS};
pub use crate::mix::{Sample, StereoSample, Voice};
pub use crate::player::Player;
pub use crate::song::{LoadError, RepeatRange, Song};
pub use crate::track::melody::MelodyTrack;
pub use crate::track::percussion::{Drum, DrumKit, PercussionTrack};
pub use crate::track::{KeyState, Track, TrackBase};
