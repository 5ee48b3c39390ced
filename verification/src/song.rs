//! A song and its loader.
//!
//! A song file starts with the three bytes `PMD` and five bytes that are
//! passed over. Four little-endian 32-bit numbers follow: the milliseconds
//! between ticks, the start and the end of the repeat range, and the number
//! of events per track. Then come the headers of the three melody tracks, 340
//! bytes each, and the volume of the percussion track, so that the events
//! start at byte 1048: those of the three melody tracks, then those of the
//! percussion track, four bytes an event.

use crate::event::Event;
use crate::read_cursor::{le_u32, ReadCursor};
use crate::track::melody::{MelodyState, MelodyTrack};
use crate::track::percussion::{PercussionState, PercussionTrack};
use crate::track::TrackState;
use vstd::prelude::*;

verus! {

/// Byte at which the first melody track's header starts.
pub const HEADER_LEN: usize = 24;

/// Byte at which the events start.
pub const EVENTS_START: usize = 1048;

/// Error that can happen when loading a PMD file.
#[derive(Clone, Copy, PartialEq, Eq, Structural, Debug)]
pub enum LoadError {
    /// Invalid magic (not `PMD`).
    InvalidMagic,
    /// End of file was reached prematurely.
    PrematureEof,
}

impl LoadError {
    /// What went wrong, in words.
    pub fn message(&self) -> (text: String)
        ensures
            *self == LoadError::InvalidMagic ==> text@ == "Invalid magic (expected PMD)"@,
            *self == LoadError::PrematureEof ==> text@ == "End of file reached prematurely"@,
    {
        match self {
            LoadError::InvalidMagic => "Invalid magic (expected PMD)".to_owned(),
            LoadError::PrematureEof => "End of file reached prematurely".to_owned(),
        }
    }
}

/// The ticks that a song repeats: when the cursor reaches `end`, it jumps to
/// `start`.
#[derive(Clone, Copy, PartialEq, Eq, Structural, Debug)]
pub struct RepeatRange {
    /// The tick that playback jumps back to.
    pub start: u32,
    /// The tick that playback does not reach.
    pub end: u32,
}

/// What a song stands for.
pub struct SongState {
    /// Milliseconds between consecutive ticks.
    pub event_wait_ms: u32,
    /// The ticks that the song repeats.
    pub repeat_range: RepeatRange,
    /// The three melody tracks.
    pub melody: Seq<MelodyState>,
    /// The percussion track.
    pub percussion: PercussionState,
}

impl SongState {
    /// There are three melody tracks, every track is well formed, and no
    /// key has gathered more phase than its frames allow.
    pub open spec fn wf(self) -> bool {
        &&& self.melody.len() == 3
        &&& forall|i: int|
            0 <= i < 3 ==> (#[trigger] self.melody[i]).wf() && self.melody[i].base.steady()
        &&& self.percussion.wf()
        &&& self.percussion.base.steady()
    }

    /// The number of events of the song: that of its percussion track.
    pub open spec fn n_events(self) -> nat {
        self.percussion.base.events.len()
    }

    /// All four tracks have the same number of events.
    pub open spec fn even(self) -> bool {
        forall|i: int| 0 <= i < 3 ==> (#[trigger] self.melody[i]).base.events.len() == self.n_events()
    }

    /// No key of any track has any time left.
    pub open spec fn silent(self) -> bool {
        &&& forall|i: int| 0 <= i < 3 ==> (#[trigger] self.melody[i]).base.silent()
        &&& self.percussion.base.silent()
    }
}

/// A Piyo Piyo song.
pub struct Song {
    /// Milliseconds between consecutive ticks.
    pub event_wait_ms: u32,
    /// The ticks that the song repeats.
    pub repeat_range: RepeatRange,
    /// The melody tracks of the song.
    pub melody_tracks: [MelodyTrack; 3],
    /// The percussion track of the song.
    pub percussion_track: PercussionTrack,
}

impl View for Song {
    type V = SongState;

    open spec fn view(&self) -> SongState {
        SongState {
            event_wait_ms: self.event_wait_ms,
            repeat_range: self.repeat_range,
            melody: Seq::new(3, |i: int| self.melody_tracks@[i]@),
            percussion: self.percussion_track@,
        }
    }
}

/// Whether `data` starts with the three bytes `PMD`.
pub open spec fn has_magic(data: Seq<u8>) -> bool {
    data.len() >= 3 && data[0] == 0x50 && data[1] == 0x4D && data[2] == 0x44
}

/// The number of events per track that the header of `data` declares.
pub open spec fn declared_events(data: Seq<u8>) -> int
    recommends
        data.len() >= HEADER_LEN,
{
    le_u32(data.skip(20))
}

/// Whether `data` is as long as its header declares: the fixed part, then
/// four tracks of events.
pub open spec fn complete(data: Seq<u8>) -> bool {
    data.len() >= EVENTS_START && data.len() >= EVENTS_START + 16 * declared_events(data)
}

/// The events of track `slot` in `data`, where the melody tracks are slots 0
/// to 2 and the percussion track is slot 3.
pub open spec fn events_of(data: Seq<u8>, slot: int) -> Seq<Event> {
    Seq::new(
        declared_events(data) as nat,
        |j: int| Event(le_u32(data.skip(EVENTS_START + 4 * (slot * declared_events(data) + j))) as u32),
    )
}

/// Melody track `slot` as `data` gives it: its header at byte
/// `24 + 340 * slot`, its events, and no key sounding yet.
pub open spec fn melody_of(data: Seq<u8>, slot: int) -> MelodyState {
    MelodyState::blank().with_header(data.skip(HEADER_LEN + 340 * slot)).with_events(
        events_of(data, slot),
    )
}

/// The percussion track as `data` gives it: its volume at byte 1044, cut to
/// 16 bits, its events, a kit without recordings and no key sounding yet.
pub open spec fn percussion_of(data: Seq<u8>) -> PercussionState {
    PercussionState {
        base: TrackState {
            vol: (le_u32(data.skip(1044)) % 0x1_0000) as u16,
            left: 0,
            right: 0,
            mix: None,
            keys: TrackState::blank().keys,
            events: events_of(data, 3),
        },
        mix_low: Some(0i32),
        kit: PercussionState::blank().kit,
    }
}

/// The song that the bytes `data` spell.
pub open spec fn parsed(data: Seq<u8>) -> SongState {
    SongState {
        event_wait_ms: le_u32(data.skip(8)) as u32,
        repeat_range: RepeatRange {
            start: le_u32(data.skip(12)) as u32,
            end: le_u32(data.skip(16)) as u32,
        },
        melody: Seq::new(3, |slot: int| melody_of(data, slot)),
        percussion: percussion_of(data),
    }
}

/// The four numbers of a song file's header.
pub struct Header {
    /// Milliseconds between consecutive ticks.
    pub event_wait_ms: u32,
    /// The ticks that the song repeats.
    pub repeat_range: RepeatRange,
    /// The number of events per track.
    pub n_events: u32,
}

/// Reads the magic and the header's four numbers from the start of a file.
pub fn read_header(cur: &mut ReadCursor) -> (result: Result<Header, LoadError>)
    ensures
        result.is_ok() <==> has_magic(old(cur)@) && old(cur)@.len() >= HEADER_LEN,
        result matches Ok(header) ==> {
            &&& final(cur)@ == old(cur)@.skip(HEADER_LEN as int)
            &&& header.event_wait_ms == le_u32(old(cur)@.skip(8))
            &&& header.repeat_range.start == le_u32(old(cur)@.skip(12))
            &&& header.repeat_range.end == le_u32(old(cur)@.skip(16))
            &&& header.n_events == declared_events(old(cur)@)
        },
        result matches Err(e) ==> (e == LoadError::InvalidMagic <==> !has_magic(old(cur)@)),
{
    let ghost data: Seq<u8> = cur@;
    match cur.next_bytes::<3>() {
        Some(magic) => {
            if magic[0] != 0x50 || magic[1] != 0x4D || magic[2] != 0x44 {
                return Err(LoadError::InvalidMagic);
            }
        },
        None => { return Err(LoadError::InvalidMagic); },
    }
    if cur.remaining() < 21 {
        return Err(LoadError::PrematureEof);
    }
    cur.skip(5);
    assert(cur@ =~= data.skip(8));
    let event_wait_ms: u32 = match cur.next_u32_le() {
        Some(word) => word,
        None => { return Err(LoadError::PrematureEof); },
    };
    assert(cur@ =~= data.skip(12));
    let start: u32 = match cur.next_u32_le() {
        Some(word) => word,
        None => { return Err(LoadError::PrematureEof); },
    };
    assert(cur@ =~= data.skip(16));
    let end: u32 = match cur.next_u32_le() {
        Some(word) => word,
        None => { return Err(LoadError::PrematureEof); },
    };
    assert(cur@ =~= data.skip(20));
    let n_events: u32 = match cur.next_u32_le() {
        Some(word) => word,
        None => { return Err(LoadError::PrematureEof); },
    };
    assert(cur@ =~= data.skip(24));
    Ok(Header { event_wait_ms, repeat_range: RepeatRange { start, end }, n_events })
}

/// The words read at the place of track `slot` are that track's events.
pub proof fn lemma_track_events(data: Seq<u8>, slot: int, events: Seq<Event>)
    requires
        0 <= slot < 4,
        0 <= declared_events(data),
        data.len() >= EVENTS_START + 4 * (slot * declared_events(data)) + 4 * declared_events(data),
        events.len() == declared_events(data),
        forall|j: int|
            0 <= j < declared_events(data) ==> (#[trigger] events[j]).0 == le_u32(
                data.skip(EVENTS_START + 4 * (slot * declared_events(data))).skip(4 * j),
            ),
    ensures
        events == events_of(data, slot),
{
    let n: int = declared_events(data);
    let base: int = EVENTS_START + 4 * (slot * n);
    assert forall|j: int| 0 <= j < n implies #[trigger] events[j] == events_of(data, slot)[j] by {
        assert(data.skip(base).skip(4 * j) =~= data.skip(base + 4 * j));
        assert(base + 4 * j == EVENTS_START + 4 * (slot * n + j));
    }
    assert(events =~= events_of(data, slot));
}

/// Reads the events of track `slot`, where the cursor stands at their start.
fn read_events(cur: &mut ReadCursor, n: usize, Ghost(data): Ghost<Seq<u8>>, Ghost(slot): Ghost<int>) -> (result:
    Option<Vec<Event>>)
    requires
        0 <= slot < 4,
        n == declared_events(data),
        data.len() >= EVENTS_START + 4 * (slot * n),
        old(cur)@ == data.skip(EVENTS_START + 4 * (slot * n)),
    ensures
        result.is_some() <==> data.len() >= EVENTS_START + 4 * (slot * n) + 4 * n,
        result matches Some(events) ==> {
            &&& events@ == events_of(data, slot)
            &&& final(cur)@ == data.skip(EVENTS_START + 4 * ((slot + 1) * n))
        },
{
    let ghost before: Seq<u8> = cur@;
    match cur.next_n(n) {
        Some(events) => {
            proof {
                lemma_track_events(data, slot, events@);
                assert((slot + 1) * n == slot * n + n) by (nonlinear_arith);
                assert(cur@ =~= data.skip(EVENTS_START + 4 * ((slot + 1) * n)));
            }
            Some(events)
        },
        None => None,
    }
}

impl Song {
    /// Loads a PMD music file.
    ///
    /// Fails with [`LoadError::InvalidMagic`] where `data` does not start
    /// with `PMD`, and with [`LoadError::PrematureEof`] where it does and is
    /// shorter than its header declares. Bytes after the last event are
    /// ignored. The percussion track comes with a kit without recordings.
    pub fn load(data: &[u8]) -> (result: Result<Self, LoadError>)
        ensures
            result.is_ok() <==> has_magic(data@) && complete(data@),
            result matches Ok(song) ==> song@ == parsed(data@) && song@.wf() && song@.even()
                && song@.silent(),
            result matches Err(e) ==> (e == LoadError::InvalidMagic <==> !has_magic(data@)),
            result matches Err(e) ==> (e == LoadError::PrematureEof <==> has_magic(data@)
                && !complete(data@)),
    {
        let mut cur: ReadCursor = ReadCursor(data);
        let header: Header = match read_header(&mut cur) {
            Ok(header) => header,
            Err(e) => { return Err(e); },
        };
        let n_events: usize = header.n_events as usize;
        let mut first: MelodyTrack = MelodyTrack::default();
        let mut second: MelodyTrack = MelodyTrack::default();
        let mut third: MelodyTrack = MelodyTrack::default();
        match first.read(&mut cur) {
            Ok(_) => {},
            Err(e) => { return Err(e); },
        }
        assert(cur@ =~= data@.skip(364));
        match second.read(&mut cur) {
            Ok(_) => {},
            Err(e) => { return Err(e); },
        }
        assert(cur@ =~= data@.skip(704));
        match third.read(&mut cur) {
            Ok(_) => {},
            Err(e) => { return Err(e); },
        }
        assert(cur@ =~= data@.skip(1044));
        let mut percussion_track: PercussionTrack = PercussionTrack::default();
        let vol: u32 = match cur.next_u32_le() {
            Some(word) => word,
            None => { return Err(LoadError::PrematureEof); },
        };
        percussion_track.base.vol = (vol % 0x1_0000) as u16;
        assert(cur@ =~= data@.skip(1048));
        first.base.events = match read_events(&mut cur, n_events, Ghost(data@), Ghost(0)) {
            Some(events) => events,
            None => { return Err(LoadError::PrematureEof); },
        };
        second.base.events = match read_events(&mut cur, n_events, Ghost(data@), Ghost(1)) {
            Some(events) => events,
            None => { return Err(LoadError::PrematureEof); },
        };
        third.base.events = match read_events(&mut cur, n_events, Ghost(data@), Ghost(2)) {
            Some(events) => events,
            None => { return Err(LoadError::PrematureEof); },
        };
        percussion_track.base.events = match read_events(&mut cur, n_events, Ghost(data@), Ghost(3)) {
            Some(events) => events,
            None => { return Err(LoadError::PrematureEof); },
        };
        let song: Song = Song {
            event_wait_ms: header.event_wait_ms,
            repeat_range: header.repeat_range,
            melody_tracks: [first, second, third],
            percussion_track,
        };
        assert(song@.melody =~= parsed(data@).melody);
        Ok(song)
    }
}

} // verus!
