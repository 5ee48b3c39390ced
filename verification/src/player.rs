//! The sequencer: it drives the tick clock, hands each tick's events to the
//! tracks, and gathers the voices of each frame.

use crate::mix::{mix_voices, single_valued, sounds_like, Sample, StereoSample, Voice};
use crate::song::{complete, has_magic, parsed, LoadError, RepeatRange, Song, SongState};
use crate::track::Track;
use vstd::prelude::*;

verus! {

/// The cursor after the tick at `cursor`: the next tick, or the start of the
/// repeat range where the next tick would reach the range's end.
pub open spec fn next_cursor(cursor: u32, range: RepeatRange) -> u32 {
    if cursor + 1 >= range.end {
        range.start
    } else {
        (cursor + 1) as u32
    }
}

/// The cursor after `ticks` ticks from `cursor`.
pub open spec fn cursor_after(cursor: u32, range: RepeatRange, ticks: nat) -> u32
    decreases ticks,
{
    if ticks == 0 {
        cursor
    } else {
        cursor_after(next_cursor(cursor, range), range, (ticks - 1) as nat)
    }
}

/// What a player stands for.
pub struct PlayerState {
    /// Frames per second.
    pub rate: u16,
    /// Frames until the next tick.
    pub wait: u64,
    /// Index of the event to process next.
    pub cursor: u32,
    /// The song.
    pub song: SongState,
}

impl PlayerState {
    /// The player that starts on `song` at `rate` frames per second.
    pub open spec fn fresh(song: SongState, rate: u16) -> PlayerState {
        PlayerState { rate, wait: 0, cursor: 0, song }
    }

    /// The sample rate is not zero, and the song is well formed.
    pub open spec fn wf(self) -> bool {
        self.rate > 0 && self.song.wf()
    }

    /// Where the next frame starts a tick, every track has an event at the
    /// cursor.
    pub open spec fn can_tick(self) -> bool {
        self.wait == 0 ==> {
            &&& forall|i: int| 0 <= i < 3 ==> self.cursor < (#[trigger] self.song.melody[i]).base.events.len()
            &&& self.cursor < self.song.percussion.base.events.len()
        }
    }

    /// The cursor and the repeat range lie within the events, of which all
    /// tracks have as many: every tick from here on finds its events.
    pub open spec fn in_bounds(self) -> bool {
        &&& self.song.even()
        &&& self.cursor < self.song.n_events()
        &&& self.song.repeat_range.start < self.song.n_events()
        &&& self.song.repeat_range.end <= self.song.n_events()
    }

    /// Frames between two ticks.
    pub open spec fn frames_per_tick(self) -> int {
        self.rate * self.song.event_wait_ms / 1000
    }

    /// The player after the clock's part of a frame. Where no frame is left
    /// to wait, a tick starts: the wait begins anew, every track takes its
    /// event at the cursor, and the cursor moves on. Otherwise the wait
    /// shortens by one frame.
    pub open spec fn after_tick(self) -> PlayerState {
        if self.wait == 0 {
            PlayerState {
                rate: self.rate,
                wait: self.frames_per_tick() as u64,
                cursor: next_cursor(self.cursor, self.song.repeat_range),
                song: SongState {
                    event_wait_ms: self.song.event_wait_ms,
                    repeat_range: self.song.repeat_range,
                    melody: Seq::new(
                        3,
                        |i: int|
                            self.song.melody[i].after_event(
                                self.song.melody[i].base.events[self.cursor as int],
                            ),
                    ),
                    percussion: self.song.percussion.after_event(
                        self.song.percussion.base.events[self.cursor as int],
                    ),
                },
            }
        } else {
            PlayerState {
                rate: self.rate,
                wait: (self.wait - 1) as u64,
                cursor: self.cursor,
                song: self.song,
            }
        }
    }

    /// The voices of one frame as the tracks stand: those of the three
    /// melody tracks, then those of the percussion track.
    pub open spec fn sample_voices(self) -> Seq<Voice> {
        self.song.melody[0].frame_voices(self.rate, 24) + self.song.melody[1].frame_voices(
            self.rate,
            24,
        ) + self.song.melody[2].frame_voices(self.rate, 24) + self.song.percussion.frame_voices(
            self.rate,
            24,
        )
    }

    /// The player after the tracks' part of a frame: every track has
    /// rendered one frame.
    pub open spec fn after_sample(self) -> PlayerState {
        PlayerState {
            rate: self.rate,
            wait: self.wait,
            cursor: self.cursor,
            song: SongState {
                event_wait_ms: self.song.event_wait_ms,
                repeat_range: self.song.repeat_range,
                melody: Seq::new(3, |i: int| self.song.melody[i].after_frame(self.rate)),
                percussion: self.song.percussion.after_frame(self.rate),
            },
        }
    }

    /// The voices of the next frame.
    pub open spec fn frame_voices(self) -> Seq<Voice> {
        self.after_tick().sample_voices()
    }

    /// The player after the next frame.
    pub open spec fn after_frame(self) -> PlayerState {
        self.after_tick().after_sample()
    }

    /// The player after `frames` frames.
    pub open spec fn after_frames(self, frames: nat) -> PlayerState
        decreases frames,
    {
        if frames == 0 {
            self
        } else {
            self.after_frame().after_frames((frames - 1) as nat)
        }
    }
}

impl PlayerState {
    /// Every event of every track presses no key and carries no pan.
    pub open spec fn rests(self) -> bool {
        &&& forall|i: int, j: int|
            0 <= i < 3 && 0 <= j < self.song.melody[i].base.events.len() ==> (
            #[trigger] self.song.melody[i].base.events[j]).0 == 0
        &&& forall|j: int|
            0 <= j < self.song.percussion.base.events.len() ==> (
            #[trigger] self.song.percussion.base.events[j]).0 == 0
    }

    /// How many of the next `frames` frames start a tick.
    pub open spec fn ticks_in(self, frames: nat) -> nat
        decreases frames,
    {
        if frames == 0 {
            0
        } else if self.wait == 0 {
            1 + self.after_frame().ticks_in((frames - 1) as nat)
        } else {
            self.after_frame().ticks_in((frames - 1) as nat)
        }
    }
}

/// A tick from within the repeat range, or from the tick before it, leads
/// into the repeat range.
pub proof fn lemma_tick_stays_in_range(cursor: u32, range: RepeatRange)
    requires
        range.start < range.end,
        range.start <= cursor + 1,
    ensures
        range.start <= next_cursor(cursor, range) < range.end,
{
}

/// Once the cursor is within the repeat range, it stays there, however many
/// ticks follow.
pub proof fn lemma_ticks_stay_in_range(cursor: u32, range: RepeatRange, ticks: nat)
    requires
        range.start <= cursor < range.end,
    ensures
        range.start <= cursor_after(cursor, range, ticks) < range.end,
    decreases ticks,
{
    if ticks > 0 {
        lemma_ticks_stay_in_range(next_cursor(cursor, range), range, (ticks - 1) as nat);
    }
}

/// Loop closure: as many ticks as lead to the end of the repeat range, or
/// more, leave the cursor within the repeat range.
pub proof fn lemma_loop_closure(cursor: u32, range: RepeatRange, ticks: nat)
    requires
        range.start < range.end,
        ticks >= 1,
        cursor + ticks >= range.end,
    ensures
        range.start <= cursor_after(cursor, range, ticks) < range.end,
    decreases ticks,
{
    let next: u32 = next_cursor(cursor, range);
    if cursor + 1 >= range.end {
        lemma_ticks_stay_in_range(next, range, (ticks - 1) as nat);
    } else {
        lemma_loop_closure(next, range, (ticks - 1) as nat);
    }
}

/// A tick at the last event before the end of the repeat range wraps the
/// cursor to the start of the range.
pub proof fn lemma_wrap(cursor: u32, range: RepeatRange)
    requires
        cursor + 1 >= range.end,
    ensures
        next_cursor(cursor, range) == range.start,
{
}

/// Frames move the cursor only by their ticks, and leave the repeat range
/// as it is.
pub proof fn lemma_frames_tick(player: PlayerState, frames: nat)
    ensures
        player.after_frames(frames).cursor == cursor_after(
            player.cursor,
            player.song.repeat_range,
            player.ticks_in(frames),
        ),
        player.after_frames(frames).song.repeat_range == player.song.repeat_range,
    decreases frames,
{
    if frames > 0 {
        lemma_frames_tick(player.after_frame(), (frames - 1) as nat);
    }
}

/// Loop closure for a player: frames with as many ticks as lead to the end
/// of the repeat range, or more, leave the cursor within the repeat range.
pub proof fn lemma_player_loop_closure(player: PlayerState, frames: nat)
    requires
        player.song.repeat_range.start < player.song.repeat_range.end,
        player.ticks_in(frames) >= 1,
        player.cursor + player.ticks_in(frames) >= player.song.repeat_range.end,
    ensures
        player.song.repeat_range.start <= player.after_frames(frames).cursor
            < player.song.repeat_range.end,
{
    lemma_frames_tick(player, frames);
    lemma_loop_closure(player.cursor, player.song.repeat_range, player.ticks_in(frames));
}

/// A frame of a silent player whose events all rest renders no voice and
/// leaves the player silent, at rest, within bounds and well formed.
pub proof fn lemma_rest_frame(player: PlayerState)
    requires
        player.song.wf(),
        player.song.silent(),
        player.rests(),
        player.in_bounds(),
    ensures
        player.frame_voices() == Seq::<Voice>::empty(),
        player.after_frame().song.wf(),
        player.after_frame().song.silent(),
        player.after_frame().rests(),
        player.after_frame().in_bounds(),
{
    let ticked: PlayerState = player.after_tick();
    let after: PlayerState = player.after_frame();
    let rate: u16 = player.rate;
    assert forall|i: int| 0 <= i < 3 implies {
        &&& (#[trigger] ticked.song.melody[i]).base.keys == player.song.melody[i].base.keys
        &&& ticked.song.melody[i].base.events == player.song.melody[i].base.events
        &&& ticked.song.melody[i].waveform == player.song.melody[i].waveform
        &&& ticked.song.melody[i].envelope == player.song.melody[i].envelope
    } by {
        let track = player.song.melody[i];
        assert(track.base.events.len() == player.song.n_events());
        if player.wait == 0 {
            crate::track::lemma_rest_event(
                track.base,
                track.base.events[player.cursor as int],
                track.spans(),
            );
        }
    }
    let drums = player.song.percussion;
    if player.wait == 0 {
        crate::track::lemma_rest_event(
            drums.base,
            drums.base.events[player.cursor as int],
            drums.spans(),
        );
    }
    assert forall|i: int| 0 <= i < 3 implies {
        &&& (#[trigger] ticked.song.melody[i]).frame_voices(rate, 24) == Seq::<Voice>::empty()
        &&& ticked.song.melody[i].after_frame(rate) == ticked.song.melody[i]
    } by {
        let track = ticked.song.melody[i];
        assert(player.song.melody[i].base.silent());
        assert(player.song.melody[i].wf());
        crate::track::melody::lemma_silent_melody(track, rate, 24);
        crate::track::lemma_silent_frame(track.base, rate, track.steps());
    }
    crate::track::percussion::lemma_silent_percussion(ticked.song.percussion, rate, 24);
    crate::track::lemma_silent_frame(
        ticked.song.percussion.base,
        rate,
        ticked.song.percussion.steps(),
    );
    assert(ticked.song.melody[0].frame_voices(rate, 24) == Seq::<Voice>::empty());
    assert(ticked.song.melody[1].frame_voices(rate, 24) == Seq::<Voice>::empty());
    assert(ticked.song.melody[2].frame_voices(rate, 24) == Seq::<Voice>::empty());
    assert(player.frame_voices() =~= Seq::<Voice>::empty());
    assert(after.song.melody =~= ticked.song.melody);
    assert forall|i: int| 0 <= i < 3 implies {
        &&& (#[trigger] after.song.melody[i]).wf()
        &&& after.song.melody[i].base.steady()
        &&& after.song.melody[i].base.silent()
        &&& after.song.melody[i].base.events.len() == after.song.n_events()
    } by {
        assert(player.song.melody[i].wf());
        assert(player.song.melody[i].base.steady());
        assert(player.song.melody[i].base.silent());
        assert(ticked.song.melody[i].base.keys == player.song.melody[i].base.keys);
        assert(player.song.melody[i].base.events.len() == player.song.n_events());
    }
    assert forall|i: int, j: int|
        0 <= i < 3 && 0 <= j < after.song.melody[i].base.events.len() implies (
    #[trigger] after.song.melody[i].base.events[j]).0 == 0 by {
        assert(ticked.song.melody[i].base.events == player.song.melody[i].base.events);
        assert(player.song.melody[i].base.events[j].0 == 0);
    }
}

/// Silence after exhaustion: a silent player whose events all rest renders
/// no voice in any frame to come.
pub proof fn lemma_rests_forever(player: PlayerState, frames: nat)
    requires
        player.song.wf(),
        player.song.silent(),
        player.rests(),
        player.in_bounds(),
    ensures
        player.after_frames(frames).frame_voices() == Seq::<Voice>::empty(),
        player.after_frames(frames).song.silent(),
    decreases frames,
{
    lemma_rest_frame(player);
    if frames > 0 {
        lemma_rests_forever(player.after_frame(), (frames - 1) as nat);
    }
}

/// Silence after exhaustion, in samples: whatever `sound` is, every frame of
/// a silent player whose events all rest sounds like silence.
pub proof fn lemma_rests_sound_silent<F: Fn(Voice) -> StereoSample>(
    player: PlayerState,
    frames: nat,
    sound: F,
    left: Sample,
    right: Sample,
)
    requires
        player.song.wf(),
        player.song.silent(),
        player.rests(),
        player.in_bounds(),
        sounds_like(sound, player.after_frames(frames).frame_voices(), left, right),
    ensures
        left == 0,
        right == 0,
{
    lemma_rests_forever(player, frames);
    crate::mix::lemma_no_voice_is_silence(sound, left, right);
}

/// Whether `buf` holds what the next frames of `player` sound like under
/// `sound`: one frame for each two places, the left sample before the right.
pub open spec fn rendered<F: Fn(Voice) -> StereoSample>(
    sound: F,
    player: PlayerState,
    buf: Seq<i16>,
) -> bool {
    forall|i: nat|
        i < buf.len() / 2 ==> sounds_like(
            sound,
            (#[trigger] player.after_frames(i)).frame_voices(),
            buf[2 * i as int],
            buf[2 * i as int + 1],
        )
}

/// Frames add up: `first` frames and then `second` frames are
/// `first + second` frames.
pub proof fn lemma_frames_add(player: PlayerState, first: nat, second: nat)
    ensures
        player.after_frames(first).after_frames(second) == player.after_frames(first + second),
    decreases first,
{
    if first > 0 {
        lemma_frames_add(player.after_frame(), (first - 1) as nat, second);
        assert(player.after_frames(first + second) == player.after_frame().after_frames(
            (first + second - 1) as nat,
        ));
    }
}

/// Render determinism: where `sound` makes one thing only of each voice, two
/// buffers of one length that were rendered from the same state are equal,
/// frame for frame.
pub proof fn lemma_same_state_same_buffers<F: Fn(Voice) -> StereoSample>(
    player: PlayerState,
    sound: F,
    first: Seq<i16>,
    second: Seq<i16>,
)
    requires
        single_valued(sound),
        first.len() == second.len(),
        rendered(sound, player, first),
        rendered(sound, player, second),
    ensures
        forall|k: int| 0 <= k < 2 * (first.len() / 2) ==> first[k] == second[k],
{
    assert forall|k: int| 0 <= k < 2 * (first.len() / 2) implies first[k] == second[k] by {
        let i: nat = (k / 2) as nat;
        let voices: Seq<Voice> = player.after_frames(i).frame_voices();
        assert(sounds_like(sound, voices, first[2 * i as int], first[2 * i as int + 1]));
        assert(sounds_like(sound, voices, second[2 * i as int], second[2 * i as int + 1]));
        crate::mix::lemma_one_sound(
            sound,
            voices,
            first[2 * i as int],
            first[2 * i as int + 1],
            second[2 * i as int],
            second[2 * i as int + 1],
        );
    }
}

/// Render determinism from the bytes: two players that were made from the
/// same bytes at the same sample rate and have rendered as many frames each
/// fill two buffers of one length alike, and stand alike afterwards, cursor
/// and all, where `sound` makes one thing only of each voice.
pub proof fn lemma_same_bytes_same_buffers<F: Fn(Voice) -> StereoSample>(
    data: Seq<u8>,
    rate: u16,
    before: nat,
    sound: F,
    first: Seq<i16>,
    second: Seq<i16>,
)
    requires
        single_valued(sound),
        first.len() == second.len(),
        rendered(sound, PlayerState::fresh(parsed(data), rate).after_frames(before), first),
        rendered(sound, PlayerState::fresh(parsed(data), rate).after_frames(before), second),
    ensures
        forall|k: int| 0 <= k < 2 * (first.len() / 2) ==> first[k] == second[k],
        PlayerState::fresh(parsed(data), rate).after_frames(before).after_frames(first.len() / 2)
            == PlayerState::fresh(parsed(data), rate).after_frames(before + second.len() / 2),
{
    let player: PlayerState = PlayerState::fresh(parsed(data), rate);
    lemma_same_state_same_buffers(player.after_frames(before), sound, first, second);
    lemma_frames_add(player, before, first.len() / 2);
}

/// One frame after `frames` frames is `frames + 1` frames.
pub proof fn lemma_one_more_frame(player: PlayerState, frames: nat)
    ensures
        player.after_frames(frames).after_frame() == player.after_frames(frames + 1),
    decreases frames,
{
    assert(player.after_frames(frames + 1) == player.after_frame().after_frames(frames));
    if frames > 0 {
        assert(player.after_frames(frames) == player.after_frame().after_frames(
            (frames - 1) as nat,
        ));
        lemma_one_more_frame(player.after_frame(), (frames - 1) as nat);
    }
}

/// A frame keeps a player within bounds.
pub proof fn lemma_frame_keeps_bounds(player: PlayerState)
    requires
        player.song.melody.len() == 3,
        player.in_bounds(),
    ensures
        player.can_tick(),
        player.after_frame().song.melody.len() == 3,
        player.after_frame().in_bounds(),
{
    let after: PlayerState = player.after_frame();
    assert forall|i: int| 0 <= i < 3 implies (#[trigger] after.song.melody[i]).base.events
        == player.song.melody[i].base.events by {
        assert(player.after_tick().song.melody[i].base.events == player.song.melody[i].base.events);
    }
    assert forall|i: int| 0 <= i < 3 implies player.cursor < (
    #[trigger] player.song.melody[i]).base.events.len() by {
        assert(player.song.melody[i].base.events.len() == player.song.n_events());
    }
    assert forall|i: int| 0 <= i < 3 implies (#[trigger] after.song.melody[i]).base.events.len()
        == after.song.n_events() by {
        assert(player.song.melody[i].base.events.len() == player.song.n_events());
    }
}

/// A player within bounds finds its events at every tick to come.
pub proof fn lemma_bounds_hold(player: PlayerState, frames: nat)
    requires
        player.song.melody.len() == 3,
        player.in_bounds(),
    ensures
        player.after_frames(frames).in_bounds(),
        player.after_frames(frames).can_tick(),
        player.after_frames(frames).song.melody.len() == 3,
    decreases frames,
{
    lemma_frame_keeps_bounds(player);
    if frames > 0 {
        lemma_bounds_hold(player.after_frame(), (frames - 1) as nat);
    }
}

/// PMD music player.
pub struct Player {
    /// Frames per second.
    pub sample_rate: u16,
    /// When it reaches zero, we execute the next event.
    pub wait_timer: u64,
    /// Index of event to process next.
    pub event_cursor: u32,
    /// The currently loaded song.
    pub song: Song,
    /// The voices of the frame that was rendered last.
    pub voices: Vec<Voice>,
}

impl View for Player {
    type V = PlayerState;

    open spec fn view(&self) -> PlayerState {
        PlayerState {
            rate: self.sample_rate,
            wait: self.wait_timer,
            cursor: self.event_cursor,
            song: self.song@,
        }
    }
}

impl Player {
    /// Create a new `Player` with a song loaded from `data`, to render at
    /// `sample_rate` frames per second.
    ///
    /// Fails as [`Song::load`] does. The sample rate is taken as it is: a
    /// rate of zero gives a player too, but one that is not well formed, so
    /// that no frame can be rendered with it.
    pub fn new(data: &[u8], sample_rate: u16) -> (result: Result<Self, LoadError>)
        ensures
            result.is_ok() <==> has_magic(data@) && complete(data@),
            result matches Ok(player) ==> {
                &&& player@ == PlayerState::fresh(parsed(data@), sample_rate)
                &&& player@.song.wf()
                &&& player@.song.even()
                &&& player@.song.silent()
                &&& player.voices@.len() == 0
                &&& player@.wf() <==> sample_rate > 0
            },
            result matches Err(e) ==> (e == LoadError::InvalidMagic <==> !has_magic(data@)),
            result matches Err(e) ==> (e == LoadError::PrematureEof <==> has_magic(data@)
                && !complete(data@)),
    {
        match Song::load(data) {
            Ok(song) => Ok(
                Player {
                    sample_rate,
                    wait_timer: 0,
                    event_cursor: 0,
                    song,
                    voices: Vec::with_capacity(96),
                },
            ),
            Err(e) => Err(e),
        }
    }

    /// Returns number of events in the song.
    #[must_use]
    pub fn n_events(&self) -> (n: usize)
        ensures
            n == self@.song.n_events(),
    {
        // Each track has the same length, we just use the percussion track for simplicity
        self.song.percussion_track.base.events.len()
    }

    /// Whether the next frame can be rendered: where it starts a tick, every
    /// track has an event at the cursor.
    pub fn can_tick(&self) -> (can: bool)
        ensures
            can == self@.can_tick(),
    {
        if self.wait_timer != 0 {
            return true;
        }
        let cursor: u64 = self.event_cursor as u64;
        let can: bool = cursor < self.song.melody_tracks[0].base.events.len() as u64 && cursor
            < self.song.melody_tracks[1].base.events.len() as u64 && cursor
            < self.song.melody_tracks[2].base.events.len() as u64 && cursor
            < self.song.percussion_track.base.events.len() as u64;
        proof {
            if self@.can_tick() {
                assert(self.event_cursor < self@.song.melody[0].base.events.len());
                assert(self.event_cursor < self@.song.melody[1].base.events.len());
                assert(self.event_cursor < self@.song.melody[2].base.events.len());
            }
        }
        can
    }

    /// Whether the cursor and the repeat range lie within the events, of
    /// which all tracks have as many: then every frame to come can be
    /// rendered.
    pub fn in_bounds(&self) -> (within: bool)
        ensures
            within == self@.in_bounds(),
    {
        let n: usize = self.song.percussion_track.base.events.len();
        let even: bool = self.song.melody_tracks[0].base.events.len() == n
            && self.song.melody_tracks[1].base.events.len() == n
            && self.song.melody_tracks[2].base.events.len() == n;
        proof {
            if self@.song.even() {
                assert(self@.song.melody[0].base.events.len() == n);
                assert(self@.song.melody[1].base.events.len() == n);
                assert(self@.song.melody[2].base.events.len() == n);
            }
        }
        even && (self.event_cursor as u64) < n as u64 && (self.song.repeat_range.start as u64)
            < n as u64 && self.song.repeat_range.end as u64 <= n as u64
    }

    /// The clock's part of a frame. Where no frame is left to wait, a tick
    /// starts: the wait begins anew, every track takes its event at the
    /// cursor, and the cursor moves on, back to the start of the repeat
    /// range where it reaches the range's end. Otherwise the wait shortens
    /// by one frame.
    pub fn tick(&mut self)
        requires
            old(self)@.wf(),
            old(self)@.can_tick(),
        ensures
            final(self)@ == old(self)@.after_tick(),
            final(self)@.wf(),
            final(self).voices == old(self).voices,
    {
        if self.wait_timer == 0 {
            let rate: u64 = self.sample_rate as u64;
            let wait_ms: u64 = self.song.event_wait_ms as u64;
            assert(rate * wait_ms <= 0xFFFF * 0xFFFF_FFFF) by (nonlinear_arith)
                requires
                    rate <= 0xFFFF,
                    wait_ms <= 0xFFFF_FFFF,
            ;
            let per_tick: u64 = rate * wait_ms / 1000;
            self.wait_timer = per_tick;
            let index: usize = self.event_cursor as usize;
            assert(old(self)@.song.melody[0].wf());
            assert(old(self)@.song.melody[1].wf());
            assert(old(self)@.song.melody[2].wf());
            assert(self.event_cursor < old(self)@.song.melody[0].base.events.len());
            assert(self.event_cursor < old(self)@.song.melody[1].base.events.len());
            assert(self.event_cursor < old(self)@.song.melody[2].base.events.len());
            proof {
                let song: SongState = old(self)@.song;
                assert forall|i: int| 0 <= i < 3 implies (#[trigger] song.melody[i]).after_event(
                    song.melody[i].base.events[index as int],
                ).base.steady() by {
                    crate::track::lemma_steady_event(
                        song.melody[i].base,
                        song.melody[i].base.events[index as int],
                        song.melody[i].spans(),
                    );
                }
                crate::track::lemma_steady_event(
                    song.percussion.base,
                    song.percussion.base.events[index as int],
                    song.percussion.spans(),
                );
            }
            self.song.melody_tracks[0].do_event_at_idx(index);
            self.song.melody_tracks[1].do_event_at_idx(index);
            self.song.melody_tracks[2].do_event_at_idx(index);
            self.song.percussion_track.do_event_at_idx(index);
            let range: RepeatRange = self.song.repeat_range;
            self.event_cursor = if self.event_cursor as u64 + 1 >= range.end as u64 {
                range.start
            } else {
                self.event_cursor + 1
            };
            assert(self@.song.melody =~= old(self)@.after_tick().song.melody);
        } else {
            self.wait_timer = self.wait_timer - 1;
            assert(self@.song.melody =~= old(self)@.song.melody);
        }
    }

    /// The tracks' part of a frame: every track renders one frame. The
    /// player's `voices` become the frame's voices: those of the three
    /// melody tracks, then those of the percussion track.
    pub fn next_voices(&mut self)
        requires
            old(self)@.wf(),
        ensures
            final(self)@ == old(self)@.after_sample(),
            final(self)@.wf(),
            final(self).voices@ == old(self)@.sample_voices(),
    {
        self.voices.clear();
        let rate: u16 = self.sample_rate;
        assert(old(self)@.song.melody[0].wf());
        assert(old(self)@.song.melody[1].wf());
        assert(old(self)@.song.melody[2].wf());
        proof {
            let song: SongState = old(self)@.song;
            crate::track::melody::lemma_steady_melody(song.melody[0], rate);
            crate::track::melody::lemma_steady_melody(song.melody[1], rate);
            crate::track::melody::lemma_steady_melody(song.melody[2], rate);
            crate::track::percussion::lemma_steady_percussion(song.percussion, rate);
        }
        self.song.melody_tracks[0].render_next(&mut self.voices, rate);
        self.song.melody_tracks[1].render_next(&mut self.voices, rate);
        self.song.melody_tracks[2].render_next(&mut self.voices, rate);
        self.song.percussion_track.render_next(&mut self.voices, rate);
        assert(self@.song.melody =~= old(self)@.after_sample().song.melody);
        assert(self.voices@ =~= old(self)@.sample_voices());
    }

    /// The tracks' part of a frame, as a stereo sample: every track renders
    /// one frame, and what `sound` makes of each voice is added up, each
    /// addition saturating.
    pub fn next_sample<F: Fn(Voice) -> StereoSample>(&mut self, sound: &F) -> (frame: StereoSample)
        requires
            old(self)@.wf(),
            forall|voice: Voice| call_requires(*sound, (voice,)),
        ensures
            final(self)@ == old(self)@.after_sample(),
            final(self)@.wf(),
            final(self).voices@ == old(self)@.sample_voices(),
            sounds_like(*sound, old(self)@.sample_voices(), frame@[0], frame@[1]),
    {
        self.next_voices();
        mix_voices(&self.voices, sound)
    }

    /// Advances playback and renders samples into `buf`: one frame for each
    /// two places of `buf`, the left sample before the right. Each frame
    /// takes the clock's part, then the tracks' part. A last odd place of
    /// `buf` stays as it is.
    pub fn render_next<F: Fn(Voice) -> StereoSample>(&mut self, buf: &mut [i16], sound: &F)
        requires
            old(self)@.wf(),
            forall|i: nat| i < old(buf)@.len() / 2 ==> (#[trigger] old(self)@.after_frames(i)).can_tick(),
            forall|voice: Voice| call_requires(*sound, (voice,)),
        ensures
            final(self)@ == old(self)@.after_frames(old(buf)@.len() / 2),
            final(self)@.wf(),
            final(buf)@.len() == old(buf)@.len(),
            rendered(*sound, old(self)@, final(buf)@),
            forall|k: int|
                2 * (old(buf)@.len() / 2) <= k < old(buf)@.len() ==> final(buf)@[k] == old(buf)@[k],
    {
        let frames: usize = buf.len() / 2;
        let mut i: usize = 0;
        while i < frames
            invariant
                i <= frames,
                frames == old(buf)@.len() / 2,
                buf@.len() == old(buf)@.len(),
                buf@.len() <= usize::MAX,
                self@ == old(self)@.after_frames(i as nat),
                self@.wf(),
                forall|j: nat| j < frames ==> (#[trigger] old(self)@.after_frames(j)).can_tick(),
                forall|voice: Voice| call_requires(*sound, (voice,)),
                forall|j: nat|
                    j < i ==> sounds_like(
                        *sound,
                        (#[trigger] old(self)@.after_frames(j)).frame_voices(),
                        buf@[2 * j as int],
                        buf@[2 * j as int + 1],
                    ),
                forall|k: int| 2 * i <= k < buf@.len() ==> buf@[k] == old(buf)@[k],
            decreases frames - i,
        {
            let ghost before: PlayerState = self@;
            assert(old(self)@.after_frames(i as nat).can_tick());
            self.tick();
            let frame: StereoSample = self.next_sample(sound);
            buf[2 * i] = frame[0];
            buf[2 * i + 1] = frame[1];
            proof {
                lemma_one_more_frame(old(self)@, i as nat);
                assert(sounds_like(
                    *sound,
                    old(self)@.after_frames(i as nat).frame_voices(),
                    buf@[2 * i],
                    buf@[2 * i + 1],
                ));
            }
            i = i + 1;
        }
    }
}

} // verus!
