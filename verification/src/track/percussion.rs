//! The percussion track: six sampled drums bound to the 24 piano keys.

use crate::event::{Event, PianoKey, N_KEYS};
use crate::mix::Voice;
use crate::track::{KeyState, Track, TrackBase, TrackState};
use vstd::prelude::*;

verus! {

/// The drums of a kit.
#[derive(Clone, Copy, PartialEq, Eq, Structural, Debug)]
pub enum Drum {
    /// First bass drum: keys 0 and 1.
    Bass1,
    /// Second bass drum: keys 2 and 3.
    Bass2,
    /// Snare: keys 4 to 7.
    Snare,
    /// First hi-hat: keys 8 and 9.
    Hat1,
    /// Second hi-hat: keys 10 and 11.
    Hat2,
    /// Cymbal: keys 12 to 23.
    Cymbal,
}

/// The drum that piano key `key` plays.
pub open spec fn drum_of_key(key: int) -> Drum {
    if key < 2 {
        Drum::Bass1
    } else if key < 4 {
        Drum::Bass2
    } else if key < 8 {
        Drum::Snare
    } else if key < 10 {
        Drum::Hat1
    } else if key < 12 {
        Drum::Hat2
    } else {
        Drum::Cymbal
    }
}

/// The drum that piano key `key` plays.
pub fn key_drum(key: PianoKey) -> (drum: Drum)
    ensures
        drum == drum_of_key(key as int),
{
    if key < 2 {
        Drum::Bass1
    } else if key < 4 {
        Drum::Bass2
    } else if key < 8 {
        Drum::Snare
    } else if key < 10 {
        Drum::Hat1
    } else if key < 12 {
        Drum::Hat2
    } else {
        Drum::Cymbal
    }
}

/// What a drum kit stands for: the recording of each drum.
pub struct KitState {
    /// First bass drum.
    pub bass1: Seq<u8>,
    /// Second bass drum.
    pub bass2: Seq<u8>,
    /// Snare.
    pub snare: Seq<u8>,
    /// First hi-hat.
    pub hat1: Seq<u8>,
    /// Second hi-hat.
    pub hat2: Seq<u8>,
    /// Cymbal.
    pub cymbal: Seq<u8>,
}

impl KitState {
    /// The recording of `drum`.
    pub open spec fn pcm(self, drum: Drum) -> Seq<u8> {
        match drum {
            Drum::Bass1 => self.bass1,
            Drum::Bass2 => self.bass2,
            Drum::Snare => self.snare,
            Drum::Hat1 => self.hat1,
            Drum::Hat2 => self.hat2,
            Drum::Cymbal => self.cymbal,
        }
    }

    /// Every recording is short enough for its length to be a note duration.
    pub open spec fn wf(self) -> bool {
        forall|drum: Drum| (#[trigger] self.pcm(drum)).len() <= u32::MAX
    }

    /// The kit without recordings.
    pub open spec fn empty() -> KitState {
        KitState {
            bass1: Seq::empty(),
            bass2: Seq::empty(),
            snare: Seq::empty(),
            hat1: Seq::empty(),
            hat2: Seq::empty(),
            cymbal: Seq::empty(),
        }
    }
}

/// The recorded drums: unsigned 8-bit mono samples around the middle value
/// `0x80`, one recording for each [`Drum`].
pub struct DrumKit {
    /// First bass drum.
    pub bass1: Vec<u8>,
    /// Second bass drum.
    pub bass2: Vec<u8>,
    /// Snare.
    pub snare: Vec<u8>,
    /// First hi-hat.
    pub hat1: Vec<u8>,
    /// Second hi-hat.
    pub hat2: Vec<u8>,
    /// Cymbal.
    pub cymbal: Vec<u8>,
}

impl View for DrumKit {
    type V = KitState;

    open spec fn view(&self) -> KitState {
        KitState {
            bass1: self.bass1@,
            bass2: self.bass2@,
            snare: self.snare@,
            hat1: self.hat1@,
            hat2: self.hat2@,
            cymbal: self.cymbal@,
        }
    }
}

impl Default for DrumKit {
    /// The kit without recordings: every drum is silent.
    fn default() -> (kit: Self)
        ensures
            kit@ == KitState::empty(),
            kit@.wf(),
    {
        let kit: DrumKit = DrumKit {
            bass1: Vec::new(),
            bass2: Vec::new(),
            snare: Vec::new(),
            hat1: Vec::new(),
            hat2: Vec::new(),
            cymbal: Vec::new(),
        };
        assert(kit@.bass1 =~= Seq::empty());
        assert(kit@.bass2 =~= Seq::empty());
        assert(kit@.snare =~= Seq::empty());
        assert(kit@.hat1 =~= Seq::empty());
        assert(kit@.hat2 =~= Seq::empty());
        assert(kit@.cymbal =~= Seq::empty());
        kit
    }
}

impl DrumKit {
    /// A kit of the six recordings, unless one of them is too long for its
    /// length to be a note duration.
    pub fn new(
        bass1: Vec<u8>,
        bass2: Vec<u8>,
        snare: Vec<u8>,
        hat1: Vec<u8>,
        hat2: Vec<u8>,
        cymbal: Vec<u8>,
    ) -> (kit: Option<Self>)
        ensures
            kit.is_some() <==> (KitState {
                bass1: bass1@,
                bass2: bass2@,
                snare: snare@,
                hat1: hat1@,
                hat2: hat2@,
                cymbal: cymbal@,
            }).wf(),
            kit matches Some(k) ==> k@ == (KitState {
                bass1: bass1@,
                bass2: bass2@,
                snare: snare@,
                hat1: hat1@,
                hat2: hat2@,
                cymbal: cymbal@,
            }),
    {
        let limit: usize = 0xFFFF_FFFF;
        let ghost state: KitState = KitState {
            bass1: bass1@,
            bass2: bass2@,
            snare: snare@,
            hat1: hat1@,
            hat2: hat2@,
            cymbal: cymbal@,
        };
        if bass1.len() > limit || bass2.len() > limit || snare.len() > limit || hat1.len() > limit
            || hat2.len() > limit || cymbal.len() > limit {
            proof {
                if state.wf() {
                    assert(state.pcm(Drum::Bass1).len() <= u32::MAX);
                    assert(state.pcm(Drum::Bass2).len() <= u32::MAX);
                    assert(state.pcm(Drum::Snare).len() <= u32::MAX);
                    assert(state.pcm(Drum::Hat1).len() <= u32::MAX);
                    assert(state.pcm(Drum::Hat2).len() <= u32::MAX);
                    assert(state.pcm(Drum::Cymbal).len() <= u32::MAX);
                }
            }
            None
        } else {
            Some(DrumKit { bass1, bass2, snare, hat1, hat2, cymbal })
        }
    }

    /// The recording of `drum`.
    pub fn sample(&self, drum: Drum) -> (pcm: &Vec<u8>)
        ensures
            pcm@ == self@.pcm(drum),
    {
        match drum {
            Drum::Bass1 => &self.bass1,
            Drum::Bass2 => &self.bass2,
            Drum::Snare => &self.snare,
            Drum::Hat1 => &self.hat1,
            Drum::Hat2 => &self.hat2,
            Drum::Cymbal => &self.cymbal,
        }
    }
}

/// The exponent of the gain of the odd keys for track volume `vol`: the gain
/// is ten to the power of `(7 * vol / 10 - 300) * 8 / 2000`, the division of
/// the volume rounding down.
pub open spec fn low_mix_exponent(vol: u16) -> int {
    (7 * vol / 10 - 300) * 8
}

/// What a drum recording `pcm` gives at the playhead `position / rate`: the
/// two samples around the playhead, each taken from its middle value `0x80`,
/// joined by a straight line, times 256 and times `rate`. Past the end of
/// the recording it gives silence; at its last sample, that sample.
pub open spec fn drum_amplitude(pcm: Seq<u8>, position: int, rate: u16) -> int {
    let whole: int = position / (rate as int);
    let part: int = position % (rate as int);
    if whole >= pcm.len() {
        0
    } else {
        let next: int = if whole + 1 != pcm.len() {
            whole + 1
        } else {
            whole
        };
        let v0: int = pcm[whole] - 0x80;
        let v1: int = pcm[next] - 0x80;
        256 * (v0 * rate + part * (v1 - v0))
    }
}

/// What a percussion track stands for.
pub struct PercussionState {
    /// The state that all tracks share.
    pub base: TrackState,
    /// Exponent of the gain of the odd keys, or `None` where it is zero.
    pub mix_low: Option<i32>,
    /// The drums that the keys play.
    pub kit: KitState,
}

impl PercussionState {
    /// A silent track with a kit without recordings; the odd keys at full
    /// gain.
    pub open spec fn blank() -> PercussionState {
        PercussionState { base: TrackState::blank(), mix_low: Some(0i32), kit: KitState::empty() }
    }

    /// The base is well formed, and every recording is short enough for its
    /// length to be a note duration.
    pub open spec fn wf(self) -> bool {
        self.base.wf() && self.kit.wf()
    }

    /// The note duration of each key: the length of the recording that it
    /// plays.
    pub open spec fn spans(self) -> Seq<u32> {
        Seq::new(24, |k: int| self.kit.pcm(drum_of_key(k)).len() as u32)
    }

    /// The phase step of each key: one frame.
    pub open spec fn steps(self) -> Seq<u64> {
        Seq::new(24, |k: int| 1u64)
    }

    /// What key `key` in state `state` contributes to a frame at sample rate
    /// `rate`: its drum at the playhead, with the track's gains. The odd
    /// keys have a mix gain of their own.
    pub open spec fn voice_of(self, key: int, state: KeyState, rate: u16) -> Voice {
        Voice {
            numer: drum_amplitude(self.kit.pcm(drum_of_key(key)), state.phase * 22_050, rate) as i64,
            denom: rate as u32,
            mix: if key % 2 != 0 {
                self.mix_low
            } else {
                self.base.mix
            },
            left: self.base.left,
            right: self.base.right,
        }
    }

    /// The voices of one frame at sample rate `rate` from the keys below
    /// `n`, in key order: one for each key that still sounds, taken after the
    /// key has advanced by the frame.
    pub open spec fn frame_voices(self, rate: u16, n: int) -> Seq<Voice>
        decreases n,
    {
        if n <= 0 {
            Seq::empty()
        } else {
            let state: KeyState = self.base.keys[n - 1];
            if state.active(rate) {
                self.frame_voices(rate, n - 1).push(self.voice_of(n - 1, state.advanced(1), rate))
            } else {
                self.frame_voices(rate, n - 1)
            }
        }
    }

    /// The track after the playhead of key `key` moved on by one frame.
    pub open spec fn stepped(self, key: int) -> PercussionState {
        PercussionState {
            base: self.base.stepped(key, self.steps()[key]),
            mix_low: self.mix_low,
            kit: self.kit,
        }
    }

    /// The track after `event`: each pressed key restarts with the length of
    /// its recording as its duration, and the gain of the odd keys follows
    /// the volume.
    pub open spec fn after_event(self, event: Event) -> PercussionState {
        PercussionState {
            base: self.base.after_event(event, self.spans()),
            mix_low: Some(low_mix_exponent(self.base.vol) as i32),
            kit: self.kit,
        }
    }

    /// The track after one frame at sample rate `rate`.
    pub open spec fn after_frame(self, rate: u16) -> PercussionState {
        PercussionState {
            base: self.base.after_frame(rate, self.steps()),
            mix_low: self.mix_low,
            kit: self.kit,
        }
    }
}

/// A steady percussion track has room for the steps of a frame, and is
/// steady after the frame.
pub proof fn lemma_steady_percussion(track: PercussionState, rate: u16)
    requires
        track.base.wf(),
        track.base.steady(),
    ensures
        track.base.roomy(rate, track.steps()),
        track.after_frame(rate).base.steady(),
{
    crate::track::lemma_steady_frame(track.base, rate, track.steps());
}

/// Volume moves the mix gains only: after the same event, a track at a
/// higher volume gives each key the voice that it gives at a lower volume,
/// but for the mix exponent, which is not lower.
pub proof fn lemma_louder_percussion(
    track: PercussionState,
    lower: u16,
    higher: u16,
    event: Event,
    key: int,
    state: KeyState,
    rate: u16,
)
    requires
        lower <= higher,
    ensures
        ({
            let quiet = (PercussionState {
                base: track.base.with_vol(lower),
                mix_low: track.mix_low,
                kit: track.kit,
            }).after_event(event);
            let loud = (PercussionState {
                base: track.base.with_vol(higher),
                mix_low: track.mix_low,
                kit: track.kit,
            }).after_event(event);
            &&& quiet.base.keys == loud.base.keys
            &&& quiet.voice_of(key, state, rate).numer == loud.voice_of(key, state, rate).numer
            &&& quiet.voice_of(key, state, rate).denom == loud.voice_of(key, state, rate).denom
            &&& quiet.voice_of(key, state, rate).left == loud.voice_of(key, state, rate).left
            &&& quiet.voice_of(key, state, rate).right == loud.voice_of(key, state, rate).right
            &&& quiet.voice_of(key, state, rate).mix.is_some()
            &&& loud.voice_of(key, state, rate).mix.is_some()
            &&& quiet.voice_of(key, state, rate).mix.unwrap() <= loud.voice_of(
                key,
                state,
                rate,
            ).mix.unwrap()
        }),
{
}

/// A silent percussion track renders no voice.
pub proof fn lemma_silent_percussion(track: PercussionState, rate: u16, n: int)
    requires
        track.base.silent(),
        0 <= n <= track.base.keys.len(),
    ensures
        track.frame_voices(rate, n) == Seq::<Voice>::empty(),
    decreases n,
{
    if n > 0 {
        lemma_silent_percussion(track, rate, n - 1);
        assert(track.base.keys[n - 1].span == 0);
    }
}

/// A higher volume never gives the odd keys a lower gain: their exponent
/// grows with the volume.
pub proof fn lemma_low_mix_grows_with_volume(lower: u16, higher: u16)
    requires
        lower <= higher,
    ensures
        low_mix_exponent(lower) <= low_mix_exponent(higher),
{
}

/// The percussion track.
pub struct PercussionTrack {
    /// Track data common to melody and percussion tracks.
    pub base: TrackBase,
    /// Exponent of the gain of the odd keys, or `None` where that gain is
    /// zero.
    pub mix_low: Option<i32>,
    /// The drums that the keys play.
    pub kit: DrumKit,
}

impl View for PercussionTrack {
    type V = PercussionState;

    open spec fn view(&self) -> PercussionState {
        PercussionState { base: self.base@, mix_low: self.mix_low, kit: self.kit@ }
    }
}

impl Default for PercussionTrack {
    /// A silent track with a kit without recordings; the odd keys at full
    /// gain.
    fn default() -> (track: Self)
        ensures
            track@ == PercussionState::blank(),
            track@.wf(),
            track@.base.silent(),
            track@.base.steady(),
    {
        PercussionTrack { base: TrackBase::default(), mix_low: Some(0), kit: DrumKit::default() }
    }
}

impl PercussionTrack {
    /// Sets the gain of the odd keys from the volume.
    pub fn post_event(&mut self)
        ensures
            final(self).mix_low == Some(low_mix_exponent(old(self).base.vol) as i32),
            final(self).base == old(self).base,
            final(self).kit == old(self).kit,
    {
        self.mix_low = Some((7 * (self.base.vol as i32) / 10 - 300) * 8);
    }
}

impl Track for PercussionTrack {
    open spec fn valid(&self) -> bool {
        self@.wf()
    }

    open spec fn base_state(&self) -> TrackState {
        self@.base
    }

    open spec fn durations(&self) -> Seq<u32> {
        self@.spans()
    }

    open spec fn phase_steps(&self) -> Seq<u64> {
        self@.steps()
    }

    open spec fn key_voice(&self, key: int, rate: u16) -> Voice {
        self@.voice_of(key, self@.base.keys[key], rate)
    }

    open spec fn voices(&self, rate: u16) -> Seq<Voice> {
        self@.frame_voices(rate, 24)
    }

    /// How long a note lasts after key `key` is pressed: the length of the
    /// recording that the key plays.
    fn note_duration(&self, key: PianoKey) -> (duration: u32)
        ensures
            duration == self@.kit.pcm(drum_of_key(key as int)).len(),
    {
        self.kit.sample(key_drum(key)).len() as u32
    }

    /// Generates the contribution of key `key` to one frame at sample rate
    /// `rate`: the key's playhead moves on by one frame, also past the end
    /// of the recording, and the voice is the recording at the new
    /// playhead. Nothing else changes.
    fn sample_of_key(&mut self, key: PianoKey, rate: u16) -> (voice: Voice)
        ensures
            final(self)@ == old(self)@.stepped(key as int),
            voice == final(self)@.voice_of(key as int, final(self)@.base.keys[key as int], rate),
    {
        self.base.step_phase(key, 1);
        let state: KeyState = self.base.keys[key as usize];
        let pcm: &Vec<u8> = self.kit.sample(key_drum(key));
        let position: u128 = (state.phase as u128) * 22_050;
        let whole: u128 = position / (rate as u128);
        let part: u128 = position % (rate as u128);
        let mix: Option<i32> = if key % 2 != 0 {
            self.mix_low
        } else {
            self.base.mix
        };
        let numer: i64 = if whole >= pcm.len() as u128 {
            0
        } else {
            let at: usize = whole as usize;
            let next: usize = if at + 1 != pcm.len() {
                at + 1
            } else {
                at
            };
            let v0: i64 = pcm[at] as i64 - 0x80;
            let v1: i64 = pcm[next] as i64 - 0x80;
            let scale: i64 = rate as i64;
            let part: i64 = part as i64;
            assert(-128 * 65_535 <= v0 * scale <= 127 * 65_535) by (nonlinear_arith)
                requires
                    -128 <= v0 <= 127,
                    0 < scale <= 65_535,
            ;
            assert(-255 * 65_535 <= part * (v1 - v0) <= 255 * 65_535) by (nonlinear_arith)
                requires
                    -255 <= v1 - v0 <= 255,
                    0 <= part < 65_535,
            ;
            256 * (v0 * scale + part * (v1 - v0))
        };
        Voice { numer, denom: rate as u32, mix, left: self.base.left, right: self.base.right }
    }

    /// Applies `event`: restarts each pressed key with the length of its
    /// recording as its duration, sets both mix gains from the volume, and
    /// takes over the pan where the event carries one.
    fn do_event(&mut self, event: Event)
        ensures
            final(self)@ == old(self)@.after_event(event),
    {
        let mut spans: [u32; 24] = [0u32;24];
        let mut key: PianoKey = 0;
        while key < N_KEYS
            invariant
                key <= N_KEYS,
                self@.wf(),
                forall|k: int| 0 <= k < key ==> #[trigger] spans@[k] == self@.spans()[k],
            decreases N_KEYS - key,
        {
            spans[key as usize] = self.note_duration(key);
            key = key + 1;
        }
        assert(spans@ =~= self@.spans());
        self.base.do_event(event, &spans);
        self.post_event();
    }

    /// Applies the track's own event at index `event_idx`.
    fn do_event_at_idx(&mut self, event_idx: usize)
        ensures
            final(self)@ == old(self)@.after_event(old(self)@.base.events[event_idx as int]),
    {
        let event: Event = self.base.events[event_idx];
        self.do_event(event);
    }

    /// Renders one frame at sample rate `rate`: for each key that still
    /// sounds, in key order, the frame is counted against the key's time,
    /// and the key's voice is generated and added to `out`.
    fn render_next(&mut self, out: &mut Vec<Voice>, rate: u16)
        ensures
            final(self)@ == old(self)@.after_frame(rate),
            final(out)@ == old(out)@ + old(self)@.frame_voices(rate, 24),
    {
        let mut key: PianoKey = 0;
        assert(out@ =~= old(out)@ + old(self)@.frame_voices(rate, 0));
        while key < N_KEYS
            invariant
                key <= N_KEYS,
                rate > 0,
                self@.wf(),
                old(self)@.base.roomy(rate, old(self)@.steps()),
                self.base.vol == old(self).base.vol,
                self.base.left == old(self).base.left,
                self.base.right == old(self).base.right,
                self.base.mix == old(self).base.mix,
                self.base.events@ == old(self).base.events@,
                self.mix_low == old(self).mix_low,
                self.kit@ == old(self).kit@,
                forall|k: int|
                    0 <= k < key ==> #[trigger] self.base.keys@[k] == old(self)@.after_frame(
                        rate,
                    ).base.keys[k],
                forall|k: int| key <= k < 24 ==> #[trigger] self.base.keys@[k] == old(self).base.keys@[k],
                out@ == old(out)@ + old(self)@.frame_voices(rate, key as int),
            decreases N_KEYS - key,
        {
            if self.base.count_frame(key, rate) {
                assert(old(self)@.base.keys[key as int].active(rate));
                assert(old(self)@.base.keys[key as int].room(old(self)@.steps()[key as int]));
                let voice: Voice = self.sample_of_key(key, rate);
                out.push(voice);
                assert(out@ =~= old(out)@ + old(self)@.frame_voices(rate, key as int).push(voice));
            }
            key = key + 1;
        }
        assert(self.base.keys@ =~= old(self)@.after_frame(rate).base.keys);
    }

    fn timers(&self, rate: u16) -> (timers: [u32; 24]) {
        self.base.timers(rate)
    }
}

} // verus!
