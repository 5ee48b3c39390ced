//! The state that melody and percussion tracks share: volume, pan, one timer
//! and one phase accumulator per piano key, and the track's events.
//!
//! Time is kept exactly. A key remembers the duration it was pressed with
//! (`span`), how many frames it has sounded since (`frames`) and the phase
//! steps it has gathered (`phase`). One frame at sample rate `r` lasts
//! `22050 / r` units of a note's duration, so the time a key has left is
//! `span - frames * 22050 / r`, a fraction that these integers pin down.
//!
//! Gains are powers of ten with fractional exponents. The track keeps the
//! exponents, in units of 1/2000 of a decade; raising ten to them is left to
//! whoever turns a [`Voice`](crate::mix::Voice) into sound.

use crate::event::{key_bit, pan_of, Event, PianoKey, N_KEYS};
use crate::mix::Voice;
use vstd::prelude::*;

pub mod melody;
pub mod percussion;

verus! {

/// The largest phase step that a key can take in one frame.
pub const MAX_STEP: u64 = 752_128;

/// Timer and phase of one piano key.
#[derive(Clone, Copy, PartialEq, Eq, Structural, Debug)]
pub struct KeyState {
    /// The note duration that the key was last pressed with.
    pub span: u32,
    /// Frames rendered for the key since it was last pressed.
    pub frames: u64,
    /// Phase steps gathered since the key was last pressed.
    pub phase: u64,
}

impl KeyState {
    /// The key has gathered no more phase than its frames allow: each frame
    /// adds at most [`MAX_STEP`].
    pub open spec fn steady(self) -> bool {
        self.phase <= self.frames * MAX_STEP
    }

    /// The phase can grow by `step` within its 64 bits.
    pub open spec fn room(self, step: u64) -> bool {
        self.phase + step <= u64::MAX
    }

    /// The time that the key has left, multiplied by `rate`. It may be
    /// negative after the frame in which the note ran out.
    pub open spec fn time_left(self, rate: u16) -> int {
        self.span * rate - self.frames * 22_050
    }

    /// Whether the key still sounds at sample rate `rate`.
    pub open spec fn active(self, rate: u16) -> bool {
        self.time_left(rate) > 0
    }

    /// The whole units of time that the key has left, never below zero.
    pub open spec fn whole_timer(self, rate: u16) -> int
        recommends
            rate > 0,
    {
        if self.time_left(rate) <= 0 {
            0
        } else {
            self.time_left(rate) / (rate as int)
        }
    }

    /// The key after one more frame was counted for it: its time left is
    /// shorter by one frame.
    pub open spec fn counted(self) -> KeyState {
        KeyState { span: self.span, frames: (self.frames + 1) as u64, phase: self.phase }
    }

    /// The key after its phase grew by `step`.
    pub open spec fn stepped(self, step: u64) -> KeyState {
        KeyState { span: self.span, frames: self.frames, phase: (self.phase + step) as u64 }
    }

    /// The key after one more frame in which its phase grew by `step`.
    pub open spec fn advanced(self, step: u64) -> KeyState {
        self.counted().stepped(step)
    }

    /// The key as a press with duration `span` leaves it.
    pub open spec fn pressed(span: u32) -> KeyState {
        KeyState { span, frames: 0, phase: 0 }
    }

    /// The key as one frame at `rate` leaves it: advanced where it still
    /// sounds, untouched where it is silent.
    pub open spec fn after_frame(self, rate: u16, step: u64) -> KeyState {
        if self.active(rate) {
            self.advanced(step)
        } else {
            self
        }
    }

    /// Whether the key still sounds at sample rate `rate`.
    pub fn is_active(&self, rate: u16) -> (active: bool)
        ensures
            active == self.active(rate),
    {
        proof {
            lemma_span_at_rate(self.span, rate);
        }
        let total: u128 = (self.span as u128) * (rate as u128);
        let used: u128 = (self.frames as u128) * 22_050;
        total > used
    }

    /// The whole units of time that the key has left, never below zero.
    pub fn timer(&self, rate: u16) -> (whole: u32)
        requires
            rate > 0,
        ensures
            whole == self.whole_timer(rate),
            whole <= self.span,
    {
        proof {
            lemma_span_at_rate(self.span, rate);
        }
        let total: u128 = (self.span as u128) * (rate as u128);
        let used: u128 = (self.frames as u128) * 22_050;
        if used >= total {
            0
        } else {
            let left: u128 = total - used;
            let whole: u128 = left / (rate as u128);
            assert(whole <= self.span) by (nonlinear_arith)
                requires
                    left <= self.span * rate,
                    rate > 0,
                    whole == left / (rate as u128),
            ;
            whole as u32
        }
    }
}

/// A span multiplied by a sample rate stays below 2^48.
pub proof fn lemma_span_at_rate(span: u32, rate: u16)
    ensures
        0 <= span * rate <= 0xFFFF_FFFF * 0xFFFF,
{
    assert(0 <= span * rate <= 0xFFFF_FFFF * 0xFFFF) by (nonlinear_arith)
        requires
            0 <= span <= 0xFFFF_FFFF,
            0 <= rate <= 0xFFFF,
    ;
}

/// A key that still sounds has had fewer than three frames for each unit of
/// its span, so its frame count is far from the end of its 64 bits.
pub proof fn lemma_sounding_key(state: KeyState, rate: u16)
    requires
        state.active(rate),
    ensures
        state.frames < 3 * state.span,
        state.frames < 0x3_0000_0000,
{
    assert(state.frames < 3 * state.span) by (nonlinear_arith)
        requires
            state.span * rate > state.frames * 22_050,
            rate <= 65_535,
    ;
}

/// A steady key that still sounds has room for one more step, and is steady
/// after the frame.
pub proof fn lemma_steady_key(state: KeyState, rate: u16, step: u64)
    requires
        state.steady(),
        step <= MAX_STEP,
    ensures
        state.active(rate) ==> state.room(step),
        state.after_frame(rate, step).steady(),
{
    if state.active(rate) {
        lemma_sounding_key(state, rate);
        assert(state.phase + step <= (state.frames + 1) * MAX_STEP) by (nonlinear_arith)
            requires
                state.phase <= state.frames * MAX_STEP,
                step <= MAX_STEP,
        ;
        assert((state.frames + 1) * MAX_STEP <= 0x3_0000_0000 * MAX_STEP) by (nonlinear_arith)
            requires
                state.frames < 0x3_0000_0000,
        ;
    }
}

/// The exponent of the mix gain for track volume `vol`: the gain is ten to
/// the power of `(vol - 300) * 8 / 2000`.
pub open spec fn mix_exponent(vol: u16) -> int {
    (vol - 300) * 8
}

/// The exponent of the left gain for pan `pan`: a pan to the right lowers the
/// left channel.
pub open spec fn left_exponent(pan: i16) -> int {
    if pan < 0 {
        pan as int
    } else {
        0
    }
}

/// The exponent of the right gain for pan `pan`: a pan to the left lowers the
/// right channel.
pub open spec fn right_exponent(pan: i16) -> int {
    if -pan < 0 {
        -pan
    } else {
        0
    }
}

/// What a track base stands for: its volume, its gain exponents, the state
/// of its 24 keys and its events.
pub struct TrackState {
    /// Track volume.
    pub vol: u16,
    /// Exponent of the left gain.
    pub left: i16,
    /// Exponent of the right gain.
    pub right: i16,
    /// Exponent of the mix gain, or `None` where that gain is zero.
    pub mix: Option<i32>,
    /// Timer and phase of each piano key.
    pub keys: Seq<KeyState>,
    /// The track's events.
    pub events: Seq<Event>,
}

impl TrackState {
    /// A silent track without events: volume zero, full gain on both sides,
    /// mix gain zero, no key sounding.
    pub open spec fn blank() -> TrackState {
        TrackState {
            vol: 0,
            left: 0,
            right: 0,
            mix: None,
            keys: Seq::new(24, |k: int| KeyState::pressed(0)),
            events: Seq::empty(),
        }
    }

    /// The track with `vol` as its volume.
    pub open spec fn with_vol(self, vol: u16) -> TrackState {
        TrackState {
            vol,
            left: self.left,
            right: self.right,
            mix: self.mix,
            keys: self.keys,
            events: self.events,
        }
    }

    /// The track with `events` as its events.
    pub open spec fn with_events(self, events: Seq<Event>) -> TrackState {
        TrackState {
            vol: self.vol,
            left: self.left,
            right: self.right,
            mix: self.mix,
            keys: self.keys,
            events,
        }
    }

    /// There are 24 keys.
    pub open spec fn wf(self) -> bool {
        self.keys.len() == 24
    }

    /// No key has gathered more phase than its frames allow. A track that
    /// takes its phase steps frame by frame stays so.
    pub open spec fn steady(self) -> bool {
        forall|k: int| 0 <= k < self.keys.len() ==> (#[trigger] self.keys[k]).steady()
    }

    /// Every key that still sounds at `rate` has room for its step from
    /// `steps`.
    pub open spec fn roomy(self, rate: u16, steps: Seq<u64>) -> bool {
        forall|k: int|
            0 <= k < self.keys.len() && (#[trigger] self.keys[k]).active(rate) ==> self.keys[k].room(
                steps[k],
            )
    }

    /// The track after the phase of key `key` grew by `step`.
    pub open spec fn stepped(self, key: int, step: u64) -> TrackState {
        TrackState {
            vol: self.vol,
            left: self.left,
            right: self.right,
            mix: self.mix,
            keys: self.keys.update(key, self.keys[key].stepped(step)),
            events: self.events,
        }
    }

    /// No key has any time left, at whatever sample rate.
    pub open spec fn silent(self) -> bool {
        forall|k: int| 0 <= k < self.keys.len() ==> (#[trigger] self.keys[k]).span == 0
    }

    /// The track after `event`: each key that the event presses starts anew
    /// with its duration from `spans`, the others go on; the mix gain
    /// follows the volume; the pan follows the event where it carries one.
    pub open spec fn after_event(self, event: Event, spans: Seq<u32>) -> TrackState {
        TrackState {
            vol: self.vol,
            left: match pan_of(event.0) {
                Some(pan) => left_exponent(pan) as i16,
                None => self.left,
            },
            right: match pan_of(event.0) {
                Some(pan) => right_exponent(pan) as i16,
                None => self.right,
            },
            mix: Some(mix_exponent(self.vol) as i32),
            keys: Seq::new(
                self.keys.len(),
                |k: int|
                    if 0 <= k < N_KEYS && key_bit(event.0, k as u8) {
                        KeyState::pressed(spans[k])
                    } else {
                        self.keys[k]
                    },
            ),
            events: self.events,
        }
    }

    /// The track after one frame at `rate` in which key `k` takes the phase
    /// step `steps[k]`: each key that still sounds advances.
    pub open spec fn after_frame(self, rate: u16, steps: Seq<u64>) -> TrackState {
        TrackState {
            vol: self.vol,
            left: self.left,
            right: self.right,
            mix: self.mix,
            keys: Seq::new(self.keys.len(), |k: int| self.keys[k].after_frame(rate, steps[k])),
            events: self.events,
        }
    }
}

/// An event that presses no key and carries no pan leaves each key, the pan
/// and the events as they are.
pub proof fn lemma_rest_event(track: TrackState, event: Event, spans: Seq<u32>)
    requires
        event.0 == 0,
    ensures
        track.after_event(event, spans).keys == track.keys,
        track.after_event(event, spans).left == track.left,
        track.after_event(event, spans).right == track.right,
        track.after_event(event, spans).events == track.events,
        track.after_event(event, spans).vol == track.vol,
{
    assert forall|k: int| 0 <= k < track.keys.len() implies #[trigger] track.after_event(
        event,
        spans,
    ).keys[k] == track.keys[k] by {
        let key: u8 = k as u8;
        assert(0u32 & (1u32 << key) == 0) by (bit_vector);
    }
    assert(track.after_event(event, spans).keys =~= track.keys);
    assert(0u32 / 0x100_0000 == 0) by (bit_vector);
}

/// A frame leaves a silent track as it is.
pub proof fn lemma_silent_frame(track: TrackState, rate: u16, steps: Seq<u64>)
    requires
        track.silent(),
    ensures
        track.after_frame(rate, steps) == track,
{
    assert forall|k: int| 0 <= k < track.keys.len() implies #[trigger] track.keys[k].after_frame(
        rate,
        steps[k],
    ) == track.keys[k] by {
        assert(track.keys[k].span == 0);
    }
    assert(track.after_frame(rate, steps).keys =~= track.keys);
}

/// A steady track has room for the steps of a frame, and is steady after
/// the frame.
pub proof fn lemma_steady_frame(track: TrackState, rate: u16, steps: Seq<u64>)
    requires
        track.steady(),
        forall|k: int| 0 <= k < track.keys.len() ==> #[trigger] steps[k] <= MAX_STEP,
    ensures
        track.roomy(rate, steps),
        track.after_frame(rate, steps).steady(),
{
    assert forall|k: int| 0 <= k < track.keys.len() implies {
        &&& ((#[trigger] track.keys[k]).active(rate) ==> track.keys[k].room(steps[k]))
        &&& track.keys[k].after_frame(rate, steps[k]).steady()
    } by {
        assert(steps[k] <= MAX_STEP);
        lemma_steady_key(track.keys[k], rate, steps[k]);
    }
    assert forall|k: int| 0 <= k < track.after_frame(rate, steps).keys.len() implies (
    #[trigger] track.after_frame(rate, steps).keys[k]).steady() by {
        assert(track.keys[k].after_frame(rate, steps[k]).steady());
    }
}

/// An event leaves a steady track steady.
pub proof fn lemma_steady_event(track: TrackState, event: Event, spans: Seq<u32>)
    requires
        track.steady(),
    ensures
        track.after_event(event, spans).steady(),
{
    assert forall|k: int| 0 <= k < track.after_event(event, spans).keys.len() implies (
    #[trigger] track.after_event(event, spans).keys[k]).steady() by {
        assert(track.keys[k].steady());
    }
}

/// A higher volume never gives a lower mix gain: the exponent grows with the
/// volume.
pub proof fn lemma_mix_grows_with_volume(lower: u16, higher: u16)
    requires
        lower <= higher,
    ensures
        mix_exponent(lower) <= mix_exponent(higher),
{
}

/// A track defines how to interpret events and generate voices from them.
///
/// There are three melody tracks and one percussion track.
pub trait Track {
    /// The track's tables have their sizes.
    spec fn valid(&self) -> bool;

    /// The state that the track shares with every other kind of track.
    spec fn base_state(&self) -> TrackState;

    /// The note duration of each key.
    spec fn durations(&self) -> Seq<u32>;

    /// The phase that each key gains in one frame.
    spec fn phase_steps(&self) -> Seq<u64>;

    /// What key `key` contributes to a frame at sample rate `rate`, read at
    /// the phase where the key stands.
    spec fn key_voice(&self, key: int, rate: u16) -> Voice;

    /// The voices of one frame at sample rate `rate`, in key order: one for
    /// each key that still sounds, taken after the key has advanced by the
    /// frame.
    spec fn voices(&self, rate: u16) -> Seq<Voice>;

    /// How long a note lasts after key `key` is pressed.
    fn note_duration(&self, key: PianoKey) -> (duration: u32)
        requires
            self.valid(),
            key < N_KEYS,
        ensures
            duration == self.durations()[key as int],
    ;

    /// Generates the contribution of key `key` to one frame at sample rate
    /// `rate`: the key's phase grows by its step, and the voice is read at
    /// the new phase. Nothing else changes.
    fn sample_of_key(&mut self, key: PianoKey, rate: u16) -> (voice: Voice)
        requires
            old(self).valid(),
            key < N_KEYS,
            rate > 0,
            old(self).base_state().keys[key as int].room(old(self).phase_steps()[key as int]),
        ensures
            final(self).valid(),
            final(self).base_state() == old(self).base_state().stepped(
                key as int,
                old(self).phase_steps()[key as int],
            ),
            final(self).durations() == old(self).durations(),
            final(self).phase_steps() == old(self).phase_steps(),
            voice == final(self).key_voice(key as int, rate),
    ;

    /// Applies `event`: restarts each pressed key with its note duration,
    /// sets the mix gain from the volume, and takes over the pan where the
    /// event carries one.
    fn do_event(&mut self, event: Event)
        requires
            old(self).valid(),
        ensures
            final(self).valid(),
            final(self).base_state() == old(self).base_state().after_event(
                event,
                old(self).durations(),
            ),
            final(self).durations() == old(self).durations(),
            final(self).phase_steps() == old(self).phase_steps(),
    ;

    /// Applies the track's own event at index `event_idx`.
    fn do_event_at_idx(&mut self, event_idx: usize)
        requires
            old(self).valid(),
            event_idx < old(self).base_state().events.len(),
        ensures
            final(self).valid(),
            final(self).base_state() == old(self).base_state().after_event(
                old(self).base_state().events[event_idx as int],
                old(self).durations(),
            ),
            final(self).durations() == old(self).durations(),
            final(self).phase_steps() == old(self).phase_steps(),
    ;

    /// Renders one frame at sample rate `rate`: for each key that still
    /// sounds, in key order, the frame is counted against the key's time,
    /// and the key's voice is generated and added to `out`.
    fn render_next(&mut self, out: &mut Vec<Voice>, rate: u16)
        requires
            old(self).valid(),
            rate > 0,
            old(self).base_state().roomy(rate, old(self).phase_steps()),
        ensures
            final(self).valid(),
            final(self).base_state() == old(self).base_state().after_frame(
                rate,
                old(self).phase_steps(),
            ),
            final(self).durations() == old(self).durations(),
            final(self).phase_steps() == old(self).phase_steps(),
            final(out)@ == old(out)@ + old(self).voices(rate),
    ;

    /// For each piano key, the whole units of time that are left until
    /// silence (zero) at sample rate `rate`.
    ///
    /// Can be used for example to detect which keys are being held down
    /// currently.
    fn timers(&self, rate: u16) -> (timers: [u32; 24])
        requires
            self.valid(),
            rate > 0,
        ensures
            forall|k: int|
                0 <= k < 24 ==> timers@[k] == self.base_state().keys[k].whole_timer(rate),
    ;
}

/// Track state common to melody and percussion tracks.
pub struct TrackBase {
    /// Track volume; typical values are `0..=300`.
    pub vol: u16,
    /// Exponent of the left gain; never above zero.
    pub left: i16,
    /// Exponent of the right gain; never above zero.
    pub right: i16,
    /// Exponent of the mix gain. Until the first event the gain is zero,
    /// which no exponent gives: `None`.
    pub mix: Option<i32>,
    /// Timer and phase of each piano key.
    pub keys: [KeyState; 24],
    /// The track's events, one for each tick of the song.
    pub events: Vec<Event>,
}

impl View for TrackBase {
    type V = TrackState;

    open spec fn view(&self) -> TrackState {
        TrackState {
            vol: self.vol,
            left: self.left,
            right: self.right,
            mix: self.mix,
            keys: self.keys@,
            events: self.events@,
        }
    }
}

impl Default for TrackBase {
    /// A silent track without events: full gain on both sides, mix gain
    /// zero, no key sounding.
    fn default() -> (base: Self)
        ensures
            base@ == TrackState::blank(),
            base@.wf(),
            base@.silent(),
            base@.steady(),
    {
        let rest: KeyState = KeyState { span: 0, frames: 0, phase: 0 };
        let keys: [KeyState; 24] = [rest;24];
        assert forall|k: int| 0 <= k < 24 implies keys@[k] == rest by {
            vstd::array::axiom_spec_array_fill_for_copy_type::<KeyState, 24>(rest);
        }
        assert(keys@ =~= Seq::new(24, |k: int| KeyState::pressed(0)));
        let events: Vec<Event> = Vec::new();
        assert(events@ =~= Seq::empty());
        TrackBase { vol: 0, left: 0, right: 0, mix: None, keys, events }
    }
}

impl TrackBase {
    /// Applies `event`: restarts each pressed key with its duration from
    /// `spans`, sets the mix gain from the volume, and takes over the pan
    /// where the event carries one.
    pub fn do_event(&mut self, event: Event, spans: &[u32; 24])
        ensures
            final(self)@ == old(self)@.after_event(event, spans@),
    {
        let mut key: PianoKey = 0;
        while key < N_KEYS
            invariant
                key <= N_KEYS,
                self.vol == old(self).vol,
                self.left == old(self).left,
                self.right == old(self).right,
                self.events == old(self).events,
                forall|k: int|
                    0 <= k < key ==> #[trigger] self.keys@[k] == old(self)@.after_event(
                        event,
                        spans@,
                    ).keys[k],
                forall|k: int| key <= k < 24 ==> #[trigger] self.keys@[k] == old(self).keys@[k],
            decreases N_KEYS - key,
        {
            if event.key_down(key) {
                self.keys[key as usize] = KeyState { span: spans[key as usize], frames: 0, phase: 0 };
            }
            key = key + 1;
        }
        assert(self.keys@ =~= old(self)@.after_event(event, spans@).keys);
        self.mix = Some((self.vol as i32 - 300) * 8);
        match event.pan() {
            Some(pan) => {
                assert(-1640 <= pan <= 2560);
                self.left = if pan < 0 {
                    pan
                } else {
                    0
                };
                self.right = if -pan < 0 {
                    -pan
                } else {
                    0
                };
            },
            None => {},
        }
    }

    /// Counts one frame at sample rate `rate` against the time of key
    /// `key`, where the key still sounds. Says whether it does.
    pub fn count_frame(&mut self, key: PianoKey, rate: u16) -> (sounds: bool)
        requires
            key < N_KEYS,
        ensures
            sounds == old(self)@.keys[key as int].active(rate),
            sounds ==> final(self)@.keys == old(self)@.keys.update(
                key as int,
                old(self)@.keys[key as int].counted(),
            ),
            !sounds ==> final(self)@.keys == old(self)@.keys,
            final(self).vol == old(self).vol,
            final(self).left == old(self).left,
            final(self).right == old(self).right,
            final(self).mix == old(self).mix,
            final(self).events == old(self).events,
    {
        let state: KeyState = self.keys[key as usize];
        if !state.is_active(rate) {
            return false;
        }
        proof {
            lemma_sounding_key(state, rate);
        }
        self.keys[key as usize] = KeyState {
            span: state.span,
            frames: state.frames + 1,
            phase: state.phase,
        };
        true
    }

    /// Adds `step` to the phase of key `key`.
    pub fn step_phase(&mut self, key: PianoKey, step: u64)
        requires
            key < N_KEYS,
            old(self)@.keys[key as int].room(step),
        ensures
            final(self)@ == old(self)@.stepped(key as int, step),
    {
        let state: KeyState = self.keys[key as usize];
        self.keys[key as usize] = KeyState {
            span: state.span,
            frames: state.frames,
            phase: state.phase + step,
        };
    }

    /// For each piano key, the whole units of time that are left until
    /// silence (zero) at sample rate `rate`.
    pub fn timers(&self, rate: u16) -> (timers: [u32; 24])
        requires
            rate > 0,
        ensures
            forall|k: int| 0 <= k < 24 ==> timers@[k] == self@.keys[k].whole_timer(rate),
    {
        let mut timers: [u32; 24] = [0u32;24];
        let mut key: usize = 0;
        while key < 24
            invariant
                key <= 24,
                rate > 0,
                forall|k: int| 0 <= k < key ==> timers@[k] == self@.keys[k].whole_timer(rate),
            decreases 24 - key,
        {
            timers[key] = self.keys[key].timer(rate);
            key = key + 1;
        }
        timers
    }
}

} // verus!
