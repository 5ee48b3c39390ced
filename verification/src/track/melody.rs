//! The melody track: a wavetable voice shaped by an envelope.

use crate::event::{Event, PianoKey, N_KEYS};
use crate::mix::Voice;
use crate::read_cursor::{le_u32, ReadCursor};
use crate::song::LoadError;
use crate::track::{KeyState, Track, TrackBase, TrackState, MAX_STEP};
use vstd::prelude::*;

verus! {

/// Bytes that a melody track's header takes in a song file.
pub const MELODY_HEADER_LEN: usize = 340;

/// A melody track based on a waveform and envelope.
pub struct MelodyTrack {
    /// Track data common to melody and percussion tracks.
    pub base: TrackBase,
    /// The waveform: one cycle of the instrument.
    pub waveform: [i8; 256],
    /// The envelope: how the volume varies over a note's duration.
    pub envelope: [u8; 64],
    /// Octave shift applied when playing the instrument; its low three bits
    /// count.
    pub octave: u8,
    /// How long a note holds after being hit.
    pub len: u16,
}

/// The frequency table: the phase step of each of the twelve semitones.
pub open spec fn semitone(index: int) -> int {
    if index == 0 {
        1551
    } else if index == 1 {
        1652
    } else if index == 2 {
        1747
    } else if index == 3 {
        1848
    } else if index == 4 {
        1955
    } else if index == 5 {
        2074
    } else if index == 6 {
        2205
    } else if index == 7 {
        2324
    } else if index == 8 {
        2461
    } else if index == 9 {
        2616
    } else if index == 10 {
        2770
    } else {
        2938
    }
}

/// The factor by which `octave` raises the pitch: one for octave 0, doubling
/// with each octave up to 128 for octave 7. Of a larger octave its remainder
/// by eight counts.
pub open spec fn octave_shift(octave: u8) -> int {
    let low: int = octave as int % 8;
    if low == 0 {
        1
    } else if low == 1 {
        2
    } else if low == 2 {
        4
    } else if low == 3 {
        8
    } else if low == 4 {
        16
    } else if low == 5 {
        32
    } else if low == 6 {
        64
    } else {
        128
    }
}

/// The phase that key `key` gains in one frame at the base rate, in
/// sixteenths: the lower twelve keys take their semitone's step, the upper
/// twelve twice that, all times the octave shift.
pub open spec fn melody_step(octave: u8, key: int) -> int {
    if key < 12 {
        octave_shift(octave) * semitone(key)
    } else {
        octave_shift(octave) * (2 * semitone(key - 12))
    }
}

/// The place in the envelope of a note of duration `len` that has `timer`
/// whole units left: 64 times the part of the note that is over, at most 63.
/// A note without duration stays at the start.
pub open spec fn envelope_index(len: u16, timer: int) -> int {
    if len == 0 {
        0
    } else {
        let over: int = if timer >= len {
            0
        } else {
            len - timer
        };
        let index: int = 64 * over / (len as int);
        if index >= 64 {
            63
        } else {
            index
        }
    }
}

/// The place in the waveform of a key in state `state` at sample rate
/// `rate`: the whole part of its phase, divided by 256, within the 256
/// samples of the cycle. The phase is the key's steps, which are sixteenths
/// at the base rate of 22050, brought to `rate`.
pub open spec fn wave_index(state: KeyState, rate: u16) -> int {
    ((state.phase * 22_050) / (16 * rate) / 256) % 256
}

/// The byte `byte` read as a signed number in two's complement.
pub open spec fn signed(byte: u8) -> int {
    if byte < 128 {
        byte as int
    } else {
        byte - 256
    }
}

/// One entry of the frequency table.
pub fn semitone_entry(index: usize) -> (step: u64)
    requires
        index < 12,
    ensures
        step == semitone(index as int),
        1551 <= step <= 2938,
{
    match index {
        0 => 1551,
        1 => 1652,
        2 => 1747,
        3 => 1848,
        4 => 1955,
        5 => 2074,
        6 => 2205,
        7 => 2324,
        8 => 2461,
        9 => 2616,
        10 => 2770,
        _ => 2938,
    }
}

/// Reinterprets each byte as a signed number with `bytemuck::cast_ref`, which
/// leaves the bits as they are: a byte below 128 keeps its value, a byte from
/// 128 on stands for its value minus 256.
#[verifier::external_body]
fn signed_bytes(bytes: &[u8; 256]) -> (samples: [i8; 256])
    ensures
        forall|i: int| 0 <= i < 256 ==> (#[trigger] samples@[i]) as int == signed(bytes@[i]),
{
    *bytemuck::cast_ref::<[u8; 256], [i8; 256]>(bytes)
}

/// What a melody track stands for.
pub struct MelodyState {
    /// The state that all tracks share.
    pub base: TrackState,
    /// The waveform.
    pub waveform: Seq<i8>,
    /// The envelope.
    pub envelope: Seq<u8>,
    /// The octave shift.
    pub octave: u8,
    /// The note duration.
    pub len: u16,
}

impl MelodyState {
    /// A silent track: flat waveform, flat envelope, no duration.
    pub open spec fn blank() -> MelodyState {
        MelodyState {
            base: TrackState::blank(),
            waveform: Seq::new(256, |i: int| 0i8),
            envelope: Seq::new(64, |i: int| 0u8),
            octave: 0,
            len: 0,
        }
    }

    /// The track with `events` as its events.
    pub open spec fn with_events(self, events: Seq<Event>) -> MelodyState {
        MelodyState {
            base: self.base.with_events(events),
            waveform: self.waveform,
            envelope: self.envelope,
            octave: self.octave,
            len: self.len,
        }
    }

    /// The base is well formed, the waveform has 256 samples and the
    /// envelope 64 steps.
    pub open spec fn wf(self) -> bool {
        &&& self.base.wf()
        &&& self.waveform.len() == 256
        &&& self.envelope.len() == 64
    }

    /// The note duration of each key: the track's `len`, whatever the key.
    pub open spec fn spans(self) -> Seq<u32> {
        Seq::new(24, |k: int| self.len as u32)
    }

    /// The phase step of each key.
    pub open spec fn steps(self) -> Seq<u64> {
        Seq::new(24, |k: int| melody_step(self.octave, k) as u64)
    }

    /// What a key in state `state` contributes to a frame at sample rate
    /// `rate`: the waveform at the key's phase times twice the envelope at
    /// the key's place in the note, with the track's gains.
    pub open spec fn voice_of(self, state: KeyState, rate: u16) -> Voice {
        Voice {
            numer: (self.waveform[wave_index(state, rate)] * (2 * self.envelope[envelope_index(
                self.len,
                state.whole_timer(rate),
            )])) as i64,
            denom: 1,
            mix: self.base.mix,
            left: self.base.left,
            right: self.base.right,
        }
    }

    /// The voices of one frame at sample rate `rate` from the keys below
    /// `n`, in key order: one for each key that still sounds, taken after the
    /// key has advanced by the frame.
    pub open spec fn frame_voices(self, rate: u16, n: int) -> Seq<Voice>
        decreases n,
    {
        if n <= 0 {
            Seq::empty()
        } else {
            let state: KeyState = self.base.keys[n - 1];
            if state.active(rate) {
                self.frame_voices(rate, n - 1).push(
                    self.voice_of(state.advanced(self.steps()[n - 1]), rate),
                )
            } else {
                self.frame_voices(rate, n - 1)
            }
        }
    }

    /// The track with the header that `bytes` starts with: the octave at
    /// byte 0, the note duration at byte 4 and the volume at byte 8 (both
    /// little-endian and cut to 16 bits), the waveform at byte 20 as signed
    /// bytes and the envelope at byte 276. Keys, gains and events stay.
    pub open spec fn with_header(self, bytes: Seq<u8>) -> MelodyState {
        MelodyState {
            base: TrackState {
                vol: (le_u32(bytes.skip(8)) % 0x1_0000) as u16,
                left: self.base.left,
                right: self.base.right,
                mix: self.base.mix,
                keys: self.base.keys,
                events: self.base.events,
            },
            waveform: Seq::new(256, |i: int| signed(bytes[20 + i]) as i8),
            envelope: Seq::new(64, |i: int| bytes[276 + i]),
            octave: bytes[0],
            len: (le_u32(bytes.skip(4)) % 0x1_0000) as u16,
        }
    }

    /// The track after the phase of key `key` grew by the key's step.
    pub open spec fn stepped(self, key: int) -> MelodyState {
        MelodyState {
            base: self.base.stepped(key, self.steps()[key]),
            waveform: self.waveform,
            envelope: self.envelope,
            octave: self.octave,
            len: self.len,
        }
    }

    /// The track after `event`: each pressed key restarts with the track's
    /// `len` as its duration.
    pub open spec fn after_event(self, event: Event) -> MelodyState {
        MelodyState {
            base: self.base.after_event(event, self.spans()),
            waveform: self.waveform,
            envelope: self.envelope,
            octave: self.octave,
            len: self.len,
        }
    }

    /// The track after one frame at sample rate `rate`.
    pub open spec fn after_frame(self, rate: u16) -> MelodyState {
        MelodyState {
            base: self.base.after_frame(rate, self.steps()),
            waveform: self.waveform,
            envelope: self.envelope,
            octave: self.octave,
            len: self.len,
        }
    }
}

/// No key's step is above [`MAX_STEP`], whatever the octave.
pub proof fn lemma_melody_step(octave: u8, key: int)
    requires
        0 <= key < 24,
    ensures
        0 <= melody_step(octave, key) <= MAX_STEP,
{
    let shift: int = octave_shift(octave);
    let tone: int = if key < 12 {
        semitone(key)
    } else {
        2 * semitone(key - 12)
    };
    assert(0 <= shift * tone <= 128 * 5876) by (nonlinear_arith)
        requires
            1 <= shift <= 128,
            0 <= tone <= 5876,
    ;
}

/// A steady melody track has room for the steps of a frame, and is steady
/// after the frame.
pub proof fn lemma_steady_melody(track: MelodyState, rate: u16)
    requires
        track.base.wf(),
        track.base.steady(),
    ensures
        track.base.roomy(rate, track.steps()),
        track.after_frame(rate).base.steady(),
{
    assert forall|k: int| 0 <= k < track.base.keys.len() implies #[trigger] track.steps()[k]
        <= MAX_STEP by {
        lemma_melody_step(track.octave, k);
    }
    crate::track::lemma_steady_frame(track.base, rate, track.steps());
}

/// Volume moves the mix gain only: after the same event, a track at a higher
/// volume gives each key the voice that it gives at a lower volume, but for
/// the mix exponent, which is not lower.
pub proof fn lemma_louder_melody(
    track: MelodyState,
    lower: u16,
    higher: u16,
    event: Event,
    state: KeyState,
    rate: u16,
)
    requires
        lower <= higher,
    ensures
        ({
            let quiet = (MelodyState {
                base: track.base.with_vol(lower),
                waveform: track.waveform,
                envelope: track.envelope,
                octave: track.octave,
                len: track.len,
            }).after_event(event);
            let loud = (MelodyState {
                base: track.base.with_vol(higher),
                waveform: track.waveform,
                envelope: track.envelope,
                octave: track.octave,
                len: track.len,
            }).after_event(event);
            &&& quiet.base.keys == loud.base.keys
            &&& quiet.voice_of(state, rate).numer == loud.voice_of(state, rate).numer
            &&& quiet.voice_of(state, rate).denom == loud.voice_of(state, rate).denom
            &&& quiet.voice_of(state, rate).left == loud.voice_of(state, rate).left
            &&& quiet.voice_of(state, rate).right == loud.voice_of(state, rate).right
            &&& quiet.voice_of(state, rate).mix.is_some()
            &&& loud.voice_of(state, rate).mix.is_some()
            &&& quiet.voice_of(state, rate).mix.unwrap() <= loud.voice_of(state, rate).mix.unwrap()
        }),
{
}

/// A silent melody track renders no voice.
pub proof fn lemma_silent_melody(track: MelodyState, rate: u16, n: int)
    requires
        track.base.silent(),
        0 <= n <= track.base.keys.len(),
    ensures
        track.frame_voices(rate, n) == Seq::<Voice>::empty(),
    decreases n,
{
    if n > 0 {
        lemma_silent_melody(track, rate, n - 1);
        assert(track.base.keys[n - 1].span == 0);
    }
}

impl View for MelodyTrack {
    type V = MelodyState;

    open spec fn view(&self) -> MelodyState {
        MelodyState {
            base: self.base@,
            waveform: self.waveform@,
            envelope: self.envelope@,
            octave: self.octave,
            len: self.len,
        }
    }
}

impl Default for MelodyTrack {
    /// A silent track: flat waveform, flat envelope, no duration.
    fn default() -> (track: Self)
        ensures
            track@ == MelodyState::blank(),
            track@.wf(),
            track@.base.silent(),
            track@.base.steady(),
    {
        let track: MelodyTrack = MelodyTrack {
            base: TrackBase::default(),
            waveform: [0i8;256],
            envelope: [0u8;64],
            octave: 0,
            len: 0,
        };
        assert(track@.waveform =~= MelodyState::blank().waveform);
        assert(track@.envelope =~= MelodyState::blank().envelope);
        track
    }
}

impl Track for MelodyTrack {
    open spec fn valid(&self) -> bool {
        self@.wf()
    }

    open spec fn base_state(&self) -> TrackState {
        self@.base
    }

    open spec fn durations(&self) -> Seq<u32> {
        self@.spans()
    }

    open spec fn phase_steps(&self) -> Seq<u64> {
        self@.steps()
    }

    open spec fn key_voice(&self, key: int, rate: u16) -> Voice {
        self@.voice_of(self@.base.keys[key], rate)
    }

    open spec fn voices(&self, rate: u16) -> Seq<Voice> {
        self@.frame_voices(rate, 24)
    }

    /// How long a note lasts after key `key` is pressed: the track's `len`,
    /// whatever the key.
    fn note_duration(&self, key: PianoKey) -> (duration: u32)
        ensures
            duration == self@.len,
    {
        self.len as u32
    }

    /// Generates the contribution of key `key` to one frame at sample rate
    /// `rate`: the key's phase grows by its step, and the voice is the
    /// waveform at the new phase times twice the envelope at the key's place
    /// in the note. Nothing else changes.
    fn sample_of_key(&mut self, key: PianoKey, rate: u16) -> (voice: Voice)
        ensures
            final(self)@ == old(self)@.stepped(key as int),
            voice == final(self)@.voice_of(final(self)@.base.keys[key as int], rate),
    {
        let step: u64 = self.phase_step(key);
        self.base.step_phase(key, step);
        let state: KeyState = self.base.keys[key as usize];
        let timer: u32 = state.timer(rate);
        let len: u32 = self.len as u32;
        let mut index: u32 = if len == 0 {
            0
        } else {
            let over: u32 = if timer >= len {
                0
            } else {
                len - timer
            };
            64 * over / len
        };
        if index >= 64 {
            index = 63;
        }
        let envelope: i32 = 2 * (self.envelope[index as usize] as i32);
        let whole: u128 = (state.phase as u128) * 22_050 / (16 * (rate as u128));
        let place: u128 = (whole / 256) % 256;
        let wave: i32 = self.waveform[place as usize] as i32;
        assert(-128 * 510 <= wave * envelope <= 128 * 510) by (nonlinear_arith)
            requires
                -128 <= wave <= 127,
                0 <= envelope <= 510,
        ;
        Voice {
            numer: (wave * envelope) as i64,
            denom: 1,
            mix: self.base.mix,
            left: self.base.left,
            right: self.base.right,
        }
    }

    /// Applies `event`: restarts each pressed key with the track's `len` as
    /// its duration, sets the mix gain from the volume, and takes over the
    /// pan where the event carries one.
    fn do_event(&mut self, event: Event)
        ensures
            final(self)@ == old(self)@.after_event(event),
    {
        let spans: [u32; 24] = [self.len as u32;24];
        assert(spans@ =~= self@.spans());
        self.base.do_event(event, &spans);
    }

    /// Applies the track's own event at index `event_idx`.
    fn do_event_at_idx(&mut self, event_idx: usize)
        ensures
            final(self)@ == old(self)@.after_event(old(self)@.base.events[event_idx as int]),
    {
        let event: Event = self.base.events[event_idx];
        self.do_event(event);
    }

    /// Renders one frame at sample rate `rate`: for each key that still
    /// sounds, in key order, the frame is counted against the key's time,
    /// and the key's voice is generated and added to `out`.
    fn render_next(&mut self, out: &mut Vec<Voice>, rate: u16)
        ensures
            final(self)@ == old(self)@.after_frame(rate),
            final(out)@ == old(out)@ + old(self)@.frame_voices(rate, 24),
    {
        let mut key: PianoKey = 0;
        assert(out@ =~= old(out)@ + old(self)@.frame_voices(rate, 0));
        while key < N_KEYS
            invariant
                key <= N_KEYS,
                rate > 0,
                old(self)@.base.roomy(rate, old(self)@.steps()),
                self.base.vol == old(self).base.vol,
                self.base.left == old(self).base.left,
                self.base.right == old(self).base.right,
                self.base.mix == old(self).base.mix,
                self.base.events@ == old(self).base.events@,
                self.waveform@ == old(self).waveform@,
                self.envelope@ == old(self).envelope@,
                self.octave == old(self).octave,
                self.len == old(self).len,
                forall|k: int|
                    0 <= k < key ==> #[trigger] self.base.keys@[k] == old(self)@.after_frame(
                        rate,
                    ).base.keys[k],
                forall|k: int| key <= k < 24 ==> #[trigger] self.base.keys@[k] == old(self).base.keys@[k],
                out@ == old(out)@ + old(self)@.frame_voices(rate, key as int),
            decreases N_KEYS - key,
        {
            if self.base.count_frame(key, rate) {
                assert(old(self)@.base.keys[key as int].active(rate));
                assert(old(self)@.base.keys[key as int].room(old(self)@.steps()[key as int]));
                let voice: Voice = self.sample_of_key(key, rate);
                out.push(voice);
                assert(out@ =~= old(out)@ + old(self)@.frame_voices(rate, key as int).push(voice));
            }
            key = key + 1;
        }
        assert(self.base.keys@ =~= old(self)@.after_frame(rate).base.keys);
    }

    fn timers(&self, rate: u16) -> (timers: [u32; 24]) {
        self.base.timers(rate)
    }
}

impl MelodyTrack {
    /// The phase that key `key` gains in one frame at the base rate.
    pub fn phase_step(&self, key: PianoKey) -> (step: u64)
        requires
            key < N_KEYS,
        ensures
            step == melody_step(self.octave, key as int),
            step == self@.steps()[key as int],
            step <= MAX_STEP,
    {
        let low: u8 = self.octave % 8;
        let shift: u64 = 1u64 << low;
        assert(shift == octave_shift(self.octave)) by {
            assert(low < 8 && shift == 1u64 << low ==> (low == 0 && shift == 1) || (low == 1
                && shift == 2) || (low == 2 && shift == 4) || (low == 3 && shift == 8) || (low == 4
                && shift == 16) || (low == 5 && shift == 32) || (low == 6 && shift == 64) || (low
                == 7 && shift == 128)) by (bit_vector);
        }
        let tone: u64 = if key < 12 {
            semitone_entry(key as usize)
        } else {
            2 * semitone_entry((key - 12) as usize)
        };
        assert(shift * tone <= 128 * 5876) by (nonlinear_arith)
            requires
                shift <= 128,
                tone <= 5876,
        ;
        shift * tone
    }

    /// Reads the track's header from `cur`: octave, note duration and volume
    /// (each cut to 16 bits), waveform and envelope. When fewer bytes are
    /// left than the header takes, reads nothing and changes nothing.
    pub fn read(&mut self, cur: &mut ReadCursor) -> (result: Result<(), LoadError>)
        ensures
            result.is_ok() <==> old(cur)@.len() >= MELODY_HEADER_LEN,
            result matches Err(e) ==> e == LoadError::PrematureEof && *final(self) == *old(self)
                && final(cur)@ == old(cur)@,
            result.is_ok() ==> {
                &&& final(cur)@ == old(cur)@.skip(MELODY_HEADER_LEN as int)
                &&& final(self)@ == old(self)@.with_header(old(cur)@)
            },
    {
        if cur.remaining() < MELODY_HEADER_LEN {
            return Err(LoadError::PrematureEof);
        }
        let ghost bytes: Seq<u8> = cur@;
        let octave: u8 = match cur.next_u8() {
            Some(octave) => octave,
            None => { return Err(LoadError::PrematureEof); },
        };
        cur.skip(3);
        assert(cur@ =~= bytes.skip(4));
        let len: u32 = match cur.next_u32_le() {
            Some(len) => len,
            None => { return Err(LoadError::PrematureEof); },
        };
        assert(cur@ =~= bytes.skip(8));
        let vol: u32 = match cur.next_u32_le() {
            Some(vol) => vol,
            None => { return Err(LoadError::PrematureEof); },
        };
        cur.skip(8);
        assert(cur@ =~= bytes.skip(20));
        let wave: [u8; 256] = match cur.next_bytes::<256>() {
            Some(wave) => wave,
            None => { return Err(LoadError::PrematureEof); },
        };
        assert(cur@ =~= bytes.skip(276));
        let envelope: [u8; 64] = match cur.next_bytes::<64>() {
            Some(envelope) => envelope,
            None => { return Err(LoadError::PrematureEof); },
        };
        assert(cur@ =~= bytes.skip(340));
        self.octave = octave;
        self.len = (len % 0x1_0000) as u16;
        self.base.vol = (vol % 0x1_0000) as u16;
        self.waveform = signed_bytes(&wave);
        self.envelope = envelope;
        assert(self@.waveform =~= old(self)@.with_header(bytes).waveform);
        assert(self@.envelope =~= old(self)@.with_header(bytes).envelope);
        Ok(())
    }
}

} // verus!
