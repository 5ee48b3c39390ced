use piyopiyo::song::{LoadError, Song};
use piyopiyo::track::KeyState;

fn put_u32(out: &mut Vec<u8>, value: u32) {
    out.extend_from_slice(&value.to_le_bytes());
}

/// A song file with `n` events per track, every field set to a value that
/// tells its place.
fn sample_file(n: u32) -> Vec<u8> {
    let mut out: Vec<u8> = Vec::new();
    out.extend_from_slice(b"PMD");
    out.extend_from_slice(&[0xEE; 5]);
    put_u32(&mut out, 125);
    put_u32(&mut out, 2);
    put_u32(&mut out, n);
    put_u32(&mut out, n);
    for track in 0..3u32 {
        out.push(track as u8 + 1);
        out.extend_from_slice(&[0xDD; 3]);
        put_u32(&mut out, 1000 + track);
        put_u32(&mut out, 200 + track);
        out.extend_from_slice(&[0xCC; 8]);
        for i in 0..256u32 {
            out.push((i + track) as u8);
        }
        for i in 0..64u32 {
            out.push((2 * i + track) as u8);
        }
    }
    put_u32(&mut out, 250);
    for track in 0..4u32 {
        for j in 0..n {
            put_u32(&mut out, (track << 24) | (j + 1));
        }
    }
    out
}

#[test]
fn load_round_trip() {
    let data = sample_file(5);
    assert_eq!(data.len(), 1048 + 16 * 5);
    let song = Song::load(&data).unwrap();
    assert_eq!(song.event_wait_ms, 125);
    assert_eq!(song.repeat_range.start, 2);
    assert_eq!(song.repeat_range.end, 5);
    for track in 0..3usize {
        let melody = &song.melody_tracks[track];
        assert_eq!(melody.octave, track as u8 + 1);
        assert_eq!(melody.len, 1000 + track as u16);
        assert_eq!(melody.base.vol, 200 + track as u16);
        for i in 0..256usize {
            assert_eq!(melody.waveform[i], (i + track) as u8 as i8);
        }
        for i in 0..64usize {
            assert_eq!(melody.envelope[i], (2 * i + track) as u8);
        }
        assert_eq!(melody.base.events.len(), 5);
        for j in 0..5usize {
            assert_eq!(melody.base.events[j].0, ((track as u32) << 24) | (j as u32 + 1));
        }
    }
    assert_eq!(song.percussion_track.base.vol, 250);
    assert_eq!(song.percussion_track.base.events.len(), 5);
    for j in 0..5usize {
        assert_eq!(song.percussion_track.base.events[j].0, (3 << 24) | (j as u32 + 1));
    }
}

#[test]
fn waveform_bytes_are_read_as_signed() {
    let data = sample_file(0);
    let song = Song::load(&data).unwrap();
    let wave = &song.melody_tracks[0].waveform;
    assert_eq!(wave[0], 0);
    assert_eq!(wave[127], 127);
    assert_eq!(wave[128], -128);
    assert_eq!(wave[200], -56);
    assert_eq!(wave[255], -1);
}

#[test]
fn loaded_song_is_silent() {
    let data = sample_file(3);
    let song = Song::load(&data).unwrap();
    let rest = KeyState { span: 0, frames: 0, phase: 0 };
    for track in 0..3usize {
        let base = &song.melody_tracks[track].base;
        assert_eq!(base.left, 0);
        assert_eq!(base.right, 0);
        assert_eq!(base.mix, None);
        assert_eq!(base.keys, [rest; 24]);
    }
    let drums = &song.percussion_track;
    assert_eq!(drums.base.left, 0);
    assert_eq!(drums.base.right, 0);
    assert_eq!(drums.base.mix, None);
    assert_eq!(drums.mix_low, Some(0));
    assert_eq!(drums.base.keys, [rest; 24]);
    assert!(drums.kit.cymbal.is_empty());
    assert!(drums.kit.bass1.is_empty());
}

#[test]
fn wide_len_and_vol_are_cut_to_16_bits() {
    let mut data = sample_file(1);
    data[28..32].copy_from_slice(&0x0001_0005u32.to_le_bytes());
    data[32..36].copy_from_slice(&0xFFFF_FFFFu32.to_le_bytes());
    data[1044..1048].copy_from_slice(&0x0003_012Cu32.to_le_bytes());
    let song = Song::load(&data).unwrap();
    assert_eq!(song.melody_tracks[0].len, 5);
    assert_eq!(song.melody_tracks[0].base.vol, 0xFFFF);
    assert_eq!(song.percussion_track.base.vol, 300);
}

#[test]
fn rejects_bad_magic() {
    let mut data = sample_file(2);
    data[2] = b'X';
    assert_eq!(Song::load(&data).err(), Some(LoadError::InvalidMagic));
    let mut data = sample_file(2);
    data[0] = b'p';
    assert_eq!(Song::load(&data).err(), Some(LoadError::InvalidMagic));
    assert_eq!(Song::load(b"RIFF").err(), Some(LoadError::InvalidMagic));
}

#[test]
fn rejects_files_too_short_for_the_magic() {
    assert_eq!(Song::load(b"").err(), Some(LoadError::InvalidMagic));
    assert_eq!(Song::load(b"P").err(), Some(LoadError::InvalidMagic));
    assert_eq!(Song::load(b"PM").err(), Some(LoadError::InvalidMagic));
}

#[test]
fn rejects_truncation() {
    let data = sample_file(3);
    for len in 3..data.len() {
        assert_eq!(Song::load(&data[..len]).err(), Some(LoadError::PrematureEof));
    }
    assert!(Song::load(&data).is_ok());
}

#[test]
fn rejects_more_events_than_bytes() {
    let mut data = sample_file(3);
    data[20..24].copy_from_slice(&4u32.to_le_bytes());
    assert_eq!(Song::load(&data).err(), Some(LoadError::PrematureEof));
    data[20..24].copy_from_slice(&u32::MAX.to_le_bytes());
    assert_eq!(Song::load(&data).err(), Some(LoadError::PrematureEof));
}

#[test]
fn ignores_bytes_after_the_last_event() {
    let mut data = sample_file(2);
    data.extend_from_slice(&[0xAB; 7]);
    let song = Song::load(&data).unwrap();
    assert_eq!(song.percussion_track.base.events.len(), 2);
    assert_eq!(song.percussion_track.base.events[1].0, (3 << 24) | 2);
}

#[test]
fn loads_a_song_without_events() {
    let data = sample_file(0);
    assert_eq!(data.len(), 1048);
    let song = Song::load(&data).unwrap();
    for track in 0..3usize {
        assert!(song.melody_tracks[track].base.events.is_empty());
    }
    assert!(song.percussion_track.base.events.is_empty());
}

#[test]
fn load_error_messages() {
    assert_eq!(LoadError::InvalidMagic.message(), "Invalid magic (expected PMD)");
    assert_eq!(LoadError::PrematureEof.message(), "End of file reached prematurely");
}
