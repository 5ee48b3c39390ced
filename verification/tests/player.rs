use piyopiyo::mix::{mix, mix_frame, mix_voices, saturating_sum, Voice};
use piyopiyo::track::percussion::{key_drum, Drum, DrumKit};
use piyopiyo::track::KeyState;
use piyopiyo::{Event, Player, Track};

/// One melody track of a song file.
struct Melody {
    octave: u8,
    len: u32,
    vol: u32,
    waveform: [u8; 256],
    envelope: [u8; 64],
    events: Vec<u32>,
}

fn quiet(n: usize) -> Melody {
    Melody { octave: 0, len: 0, vol: 0, waveform: [0; 256], envelope: [0; 64], events: vec![0; n] }
}

fn put_u32(out: &mut Vec<u8>, value: u32) {
    out.extend_from_slice(&value.to_le_bytes());
}

fn song_file(
    wait_ms: u32,
    start: u32,
    end: u32,
    melodies: [Melody; 3],
    drum_vol: u32,
    drum_events: Vec<u32>,
) -> Vec<u8> {
    let n = drum_events.len();
    let mut out: Vec<u8> = Vec::new();
    out.extend_from_slice(b"PMD");
    out.extend_from_slice(&[0; 5]);
    put_u32(&mut out, wait_ms);
    put_u32(&mut out, start);
    put_u32(&mut out, end);
    put_u32(&mut out, n as u32);
    for melody in &melodies {
        out.push(melody.octave);
        out.extend_from_slice(&[0; 3]);
        put_u32(&mut out, melody.len);
        put_u32(&mut out, melody.vol);
        out.extend_from_slice(&[0; 8]);
        out.extend_from_slice(&melody.waveform);
        out.extend_from_slice(&melody.envelope);
    }
    put_u32(&mut out, drum_vol);
    for melody in &melodies {
        assert_eq!(melody.events.len(), n);
        for event in &melody.events {
            put_u32(&mut out, *event);
        }
    }
    for event in &drum_events {
        put_u32(&mut out, *event);
    }
    out
}

fn silent_file(wait_ms: u32, start: u32, end: u32, n: usize) -> Vec<u8> {
    song_file(wait_ms, start, end, [quiet(n), quiet(n), quiet(n)], 0, vec![0; n])
}

fn gain(exponent: i32) -> f32 {
    10.0f32.powf(exponent as f32 / 2000.0)
}

/// What a voice sounds like: its amplitude times its gains, cut to a sample.
fn sound(voice: Voice) -> [i16; 2] {
    match voice.mix {
        None => [0, 0],
        Some(exponent) => {
            let amplitude = voice.numer as f32 / voice.denom as f32 * gain(exponent);
            [
                (amplitude * gain(i32::from(voice.left))) as i16,
                (amplitude * gain(i32::from(voice.right))) as i16,
            ]
        }
    }
}

/// Renders `frames` frames into interleaved stereo samples.
fn render(player: &mut Player, frames: usize) -> Vec<i16> {
    assert!(player.in_bounds());
    let mut out: Vec<i16> = vec![0; 2 * frames];
    player.render_next(&mut out, &sound);
    out
}

/// Renders one frame and hands out its voices.
fn frame_voices(player: &mut Player) -> Vec<Voice> {
    assert!(player.can_tick());
    player.tick();
    player.next_voices();
    player.voices.clone()
}

fn ramp(len: usize) -> Vec<u8> {
    (0..len).map(|i| (i * 7 % 256) as u8).collect()
}

fn kit_with_cymbal(cymbal: Vec<u8>) -> DrumKit {
    DrumKit::new(vec![], vec![], vec![], vec![], vec![], cymbal).unwrap()
}

#[test]
fn minimal_silent_song_renders_silence() {
    let data = silent_file(100, 0, 1, 1);
    let mut player = Player::new(&data, 48_000).unwrap();
    let out = render(&mut player, 1024);
    assert_eq!(out.len(), 2048);
    assert!(out.iter().all(|sample| *sample == 0));
    assert_eq!(player.event_cursor, 0);
    assert_eq!(player.n_events(), 1);
}

#[test]
fn tick_length_follows_rate_and_wait() {
    let data = silent_file(100, 0, 1, 1);
    let mut player = Player::new(&data, 48_000).unwrap();
    assert_eq!(player.wait_timer, 0);
    player.tick();
    assert_eq!(player.wait_timer, 4800);
    player.tick();
    assert_eq!(player.wait_timer, 4799);
    let data = silent_file(u32::MAX, 0, 1, 1);
    let mut player = Player::new(&data, u16::MAX).unwrap();
    player.tick();
    assert_eq!(player.wait_timer, 65_535 * 4_294_967_295 / 1000);
    let data = silent_file(7, 0, 1, 1);
    let mut player = Player::new(&data, 44_100).unwrap();
    player.tick();
    assert_eq!(player.wait_timer, 308);
}

#[test]
fn single_melody_pulse_sounds() {
    let mut lead = quiet(1);
    lead.len = 48_000;
    lead.vol = 300;
    lead.octave = 4;
    lead.envelope = [255; 64];
    for i in 0..256usize {
        let angle = 2.0 * std::f64::consts::PI * i as f64 / 256.0;
        lead.waveform[i] = (100.0 * angle.sin()) as i8 as u8;
    }
    lead.events = vec![1];
    let data = song_file(100, 0, 1, [lead, quiet(1), quiet(1)], 0, vec![0]);
    let mut player = Player::new(&data, 48_000).unwrap();
    let out = render(&mut player, 48_000);
    let peak = out.iter().map(|sample| i32::from(*sample).abs()).max().unwrap();
    assert!(out.iter().any(|sample| *sample != 0));
    assert!(peak > 0);
    let timers = player.song.melody_tracks[0].base.timers(48_000);
    assert!(timers[0] < 48_000);
    assert!(timers[0] > 0);
    assert_eq!(timers[1], 0);
    assert_eq!(player.song.melody_tracks[0].base.mix, Some(0));
}

#[test]
fn loop_wrap_keeps_cursor_in_range() {
    let data = silent_file(10, 2, 4, 4);
    let mut player = Player::new(&data, 48_000).unwrap();
    let mut seen: Vec<u32> = Vec::new();
    for _ in 0..10 {
        render(&mut player, 481);
        seen.push(player.event_cursor);
    }
    assert_eq!(seen, vec![1, 2, 3, 2, 3, 2, 3, 2, 3, 2]);
    assert!(player.event_cursor == 2 || player.event_cursor == 3);
}

#[test]
fn cursor_stays_in_range_past_the_end() {
    let data = silent_file(1, 1, 3, 5);
    let mut player = Player::new(&data, 1000).unwrap();
    render(&mut player, 2 * 3);
    for _ in 0..50 {
        render(&mut player, 1);
        assert!(1 <= player.event_cursor && player.event_cursor < 3);
    }
}

#[test]
fn pan_sets_gains() {
    let mut lead = quiet(1);
    lead.vol = 300;
    lead.len = 10;
    lead.events = vec![0x0100_0001];
    let data = song_file(100, 0, 1, [lead, quiet(1), quiet(1)], 0, vec![0]);
    let mut player = Player::new(&data, 48_000).unwrap();
    player.tick();
    let base = &player.song.melody_tracks[0].base;
    assert_eq!(base.left, 0);
    assert_eq!(base.right, -1600);
    assert_eq!(base.mix, Some(0));
    assert!((gain(i32::from(base.right)) - 0.158).abs() < 0.001);
    assert!((gain(i32::from(base.left)) - 1.0).abs() < 0.000_001);
}

#[test]
fn pan_to_the_right_lowers_the_left() {
    let mut track = piyopiyo::MelodyTrack::default();
    track.do_event(Event(0x0700_0000));
    assert_eq!(track.base.left, -1640);
    assert_eq!(track.base.right, 0);
    track.do_event(Event(0x0000_0001));
    assert_eq!(track.base.left, -1640);
    assert_eq!(track.base.right, 0);
    track.do_event(Event(0x0400_0000));
    assert_eq!(track.base.left, 0);
    assert_eq!(track.base.right, 0);
    track.do_event(Event(0x0500_0000));
    assert_eq!(track.base.left, -320);
    assert_eq!(track.base.right, 0);
    track.do_event(Event(0x0300_0000));
    assert_eq!(track.base.left, 0);
    assert_eq!(track.base.right, -320);
}

#[test]
fn mix_gain_follows_volume() {
    let mut track = piyopiyo::MelodyTrack::default();
    assert_eq!(track.base.mix, None);
    for (vol, exponent) in [(0u16, -2400i32), (100, -1600), (300, 0), (301, 8), (65_535, 521_880)] {
        track.base.vol = vol;
        track.do_event(Event(0));
        assert_eq!(track.base.mix, Some(exponent));
    }
    let mut drums = piyopiyo::PercussionTrack::default();
    assert_eq!(drums.mix_low, Some(0));
    for (vol, mix, low) in [(0u16, -2400i32, -2400i32), (299, -8, -728), (300, 0, -720), (65_535, 521_880, 364_592)] {
        drums.base.vol = vol;
        drums.do_event(Event(0));
        assert_eq!(drums.base.mix, Some(mix));
        assert_eq!(drums.mix_low, Some(low));
    }
}

#[test]
fn percussion_key_plays_the_cymbal() {
    let cymbal = ramp(300);
    let data = song_file(1000, 0, 1, [quiet(1), quiet(1), quiet(1)], 300, vec![1 << 12]);
    let mut player = Player::new(&data, 22_050).unwrap();
    player.song.percussion_track.kit = kit_with_cymbal(cymbal.clone());
    for frame in 0..256usize {
        let voices = frame_voices(&mut player);
        assert_eq!(voices.len(), 1);
        let voice = voices[0];
        assert_eq!(voice.denom, 22_050);
        assert_eq!(voice.numer, 256 * (i64::from(cymbal[frame + 1]) - 128) * 22_050);
        assert_eq!(voice.mix, Some(0));
        assert_eq!(voice.left, 0);
        assert_eq!(voice.right, 0);
        let expected = (256 * (i32::from(cymbal[frame + 1]) - 128)).clamp(-32_768, 32_767) as i16;
        assert_eq!(sound(voice), [expected, expected]);
    }
}

#[test]
fn percussion_joins_samples_by_a_line() {
    let cymbal: Vec<u8> = vec![128, 138, 118, 128];
    let data = song_file(1000, 0, 1, [quiet(1), quiet(1), quiet(1)], 300, vec![1 << 13]);
    let mut player = Player::new(&data, 44_100).unwrap();
    player.song.percussion_track.kit = kit_with_cymbal(cymbal);
    let mut amplitudes: Vec<i64> = Vec::new();
    let mut mixes: Vec<Option<i32>> = Vec::new();
    for _ in 0..9 {
        let voices = frame_voices(&mut player);
        for voice in &voices {
            assert_eq!(voice.denom, 44_100);
            assert_eq!(voice.numer % 44_100, 0);
            amplitudes.push(voice.numer / 44_100);
            mixes.push(voice.mix);
        }
    }
    // Playhead at 0.5, 1, 1.5, 2, 2.5, 3, 3.5 and past the end at 4.
    assert_eq!(amplitudes, vec![1280, 2560, 0, -2560, -1280, 0, 0, 0]);
    assert!(mixes.iter().all(|mix| *mix == Some(-720)));
}

#[test]
fn percussion_note_lasts_as_long_as_its_recording() {
    let mut drums = piyopiyo::PercussionTrack::default();
    drums.kit = DrumKit::new(vec![0; 10], vec![0; 20], vec![0; 30], vec![0; 40], vec![0; 50], vec![0; 60])
        .unwrap();
    let lengths = [10u32, 10, 20, 20, 30, 30, 30, 30, 40, 40, 50, 50];
    for key in 0..24u8 {
        let expected = if key < 12 { lengths[key as usize] } else { 60 };
        assert_eq!(drums.note_duration(key), expected);
    }
    drums.do_event(Event(0x00FF_FFFF));
    for key in 0..24usize {
        let expected = if key < 12 { lengths[key] } else { 60 };
        assert_eq!(drums.base.keys[key], KeyState { span: expected, frames: 0, phase: 0 });
    }
}

#[test]
fn keys_are_bound_to_drums() {
    let drums = [
        Drum::Bass1, Drum::Bass1, Drum::Bass2, Drum::Bass2, Drum::Snare, Drum::Snare, Drum::Snare,
        Drum::Snare, Drum::Hat1, Drum::Hat1, Drum::Hat2, Drum::Hat2,
    ];
    for key in 0..24u8 {
        let expected = if key < 12 { drums[key as usize] } else { Drum::Cymbal };
        assert_eq!(key_drum(key), expected);
    }
}

#[test]
fn seek_to_last_event_wraps_to_start() {
    let data = silent_file(10, 1, 4, 4);
    let mut player = Player::new(&data, 48_000).unwrap();
    player.event_cursor = player.n_events() as u32 - 1;
    render(&mut player, 1);
    assert_eq!(player.event_cursor, 1);
}

#[test]
fn cursor_at_the_largest_index_wraps() {
    let data = silent_file(10, 3, u32::MAX, 4);
    let mut player = Player::new(&data, 48_000).unwrap();
    player.event_cursor = u32::MAX;
    assert!(!player.can_tick());
    player.wait_timer = 5;
    assert!(player.can_tick());
    player.tick();
    assert_eq!(player.event_cursor, u32::MAX);
    assert_eq!(player.wait_timer, 4);
}

#[test]
fn cannot_tick_past_the_events() {
    let data = silent_file(10, 0, 9, 2);
    let mut player = Player::new(&data, 48_000).unwrap();
    assert!(player.can_tick());
    player.event_cursor = 2;
    assert!(!player.can_tick());
    player.song.melody_tracks[1].base.events.pop();
    player.event_cursor = 1;
    assert!(!player.can_tick());
    player.event_cursor = 0;
    assert!(player.can_tick());
    let data = silent_file(10, 0, 0, 0);
    let player = Player::new(&data, 48_000).unwrap();
    assert!(!player.can_tick());
}

#[test]
fn melody_voice_follows_waveform_and_envelope() {
    let mut lead = quiet(1);
    lead.len = 100;
    lead.vol = 250;
    for i in 0..256usize {
        lead.waveform[i] = (i + 1) as u8;
    }
    for i in 0..64usize {
        lead.envelope[i] = (i + 1) as u8;
    }
    lead.events = vec![0x0200_0001];
    let data = song_file(1000, 0, 1, [lead, quiet(1), quiet(1)], 0, vec![0]);
    let mut player = Player::new(&data, 22_050).unwrap();
    let mut amplitudes: Vec<i64> = Vec::new();
    for _ in 0..4 {
        let voices = frame_voices(&mut player);
        assert_eq!(voices.len(), 1);
        assert_eq!(voices[0].denom, 1);
        assert_eq!(voices[0].mix, Some(-400));
        assert_eq!(voices[0].left, 0);
        assert_eq!(voices[0].right, -760);
        amplitudes.push(voices[0].numer);
    }
    // Phase 96, 193, 290 and 387 whole units: waveform places 0, 0, 1, 1.
    // 1, 2, 3 and 4 of 100 units over: envelope places 0, 1, 1, 2.
    assert_eq!(amplitudes, vec![1 * 2 * 1, 1 * 2 * 2, 2 * 2 * 2, 2 * 2 * 3]);
    let state = player.song.melody_tracks[0].base.keys[0];
    assert_eq!(state, KeyState { span: 100, frames: 4, phase: 4 * 1551 });
}

#[test]
fn melody_steps_follow_key_and_octave() {
    let table: [u64; 12] = [1551, 1652, 1747, 1848, 1955, 2074, 2205, 2324, 2461, 2616, 2770, 2938];
    let mut track = piyopiyo::MelodyTrack::default();
    for key in 0..24u8 {
        let tone = if key < 12 { table[key as usize] } else { 2 * table[key as usize - 12] };
        for octave in 0..8u8 {
            track.octave = octave;
            assert_eq!(track.phase_step(key), tone << octave);
        }
        track.octave = 9;
        assert_eq!(track.phase_step(key), tone * 2);
    }
}

#[test]
fn melody_note_ends_when_its_time_is_over() {
    let mut lead = quiet(1);
    lead.len = 3;
    lead.vol = 300;
    lead.waveform = [50; 256];
    lead.envelope = [100; 64];
    lead.events = vec![1 << 5];
    let data = song_file(1000, 0, 1, [quiet(1), lead, quiet(1)], 0, vec![0]);
    let mut player = Player::new(&data, 44_100).unwrap();
    let mut counts: Vec<usize> = Vec::new();
    for _ in 0..8 {
        let voices = frame_voices(&mut player);
        counts.push(voices.len());
        for voice in &voices {
            assert_eq!(voice.numer, 50 * 200);
        }
    }
    // Three units at half a unit a frame: six frames.
    assert_eq!(counts, vec![1, 1, 1, 1, 1, 1, 0, 0]);
    assert_eq!(player.song.melody_tracks[1].base.timers(44_100), [0u32; 24]);
}

#[test]
fn timers_count_whole_units_left() {
    let mut track = piyopiyo::MelodyTrack::default();
    track.len = 10;
    track.do_event(Event(0b101));
    let mut expected = [0u32; 24];
    expected[0] = 10;
    expected[2] = 10;
    assert_eq!(track.base.timers(48_000), expected);
    let mut voices: Vec<Voice> = Vec::new();
    track.render_next(&mut voices, 48_000);
    track.render_next(&mut voices, 48_000);
    track.render_next(&mut voices, 48_000);
    assert_eq!(voices.len(), 6);
    // 10 - 3 * 22050 / 48000 = 8.62...
    expected[0] = 8;
    expected[2] = 8;
    assert_eq!(track.base.timers(48_000), expected);
}

#[test]
fn render_is_deterministic() {
    let mut lead = quiet(3);
    lead.len = 2000;
    lead.vol = 280;
    lead.octave = 3;
    lead.envelope = [200; 64];
    for i in 0..256usize {
        lead.waveform[i] = (i * 5) as u8;
    }
    lead.events = vec![0x0200_0011, 0, 0x0600_0100];
    let data = song_file(5, 0, 3, [lead, quiet(3), quiet(3)], 300, vec![1 << 12, 1 << 3, 0]);
    let mut first = Player::new(&data, 44_100).unwrap();
    let mut second = Player::new(&data, 44_100).unwrap();
    first.song.percussion_track.kit = kit_with_cymbal(ramp(500));
    second.song.percussion_track.kit = kit_with_cymbal(ramp(500));
    let mut sounded = 0usize;
    for _ in 0..3000 {
        let voices_first = frame_voices(&mut first);
        let voices_second = frame_voices(&mut second);
        assert_eq!(voices_first, voices_second);
        sounded += voices_first.len();
    }
    assert!(sounded > 3000);
    assert_eq!(first.event_cursor, second.event_cursor);
    assert_eq!(first.wait_timer, second.wait_timer);
    assert_eq!(render(&mut first, 2000), render(&mut second, 2000));
}

#[test]
fn all_keys_at_full_volume_saturate() {
    let mut loud = Vec::new();
    for _ in 0..3 {
        let mut track = quiet(1);
        track.len = 60_000;
        track.vol = 300;
        track.waveform = [127; 256];
        track.envelope = [255; 64];
        track.events = vec![0x00FF_FFFF];
        loud.push(track);
    }
    let third = loud.pop().unwrap();
    let second = loud.pop().unwrap();
    let first = loud.pop().unwrap();
    let data = song_file(1000, 0, 1, [first, second, third], 300, vec![0x00FF_FFFF]);
    let mut player = Player::new(&data, 48_000).unwrap();
    player.song.percussion_track.kit =
        DrumKit::new(vec![255; 64], vec![255; 64], vec![255; 64], vec![255; 64], vec![255; 64], vec![255; 64])
            .unwrap();
    let voices = frame_voices(&mut player);
    assert_eq!(voices.len(), 96);
    let out = render(&mut player, 64);
    assert!(out.iter().all(|sample| *sample == i16::MAX));
}

#[test]
fn mixing_saturates_at_both_ends() {
    assert_eq!(saturating_sum(32_767, 1), 32_767);
    assert_eq!(saturating_sum(-32_768, -1), -32_768);
    assert_eq!(saturating_sum(20_000, 20_000), 32_767);
    assert_eq!(saturating_sum(-20_000, -20_000), -32_768);
    assert_eq!(saturating_sum(-5, 7), 2);
    assert_eq!(saturating_sum(32_767, -32_768), -1);
    let mut frame = [30_000i16, -30_000];
    mix(&mut frame, [5000, -5000]);
    assert_eq!(frame, [32_767, -32_768]);
    mix(&mut frame, [-1, 1]);
    assert_eq!(frame, [32_766, -32_767]);
}

#[test]
fn mix_frame_adds_in_order() {
    assert_eq!(mix_frame(&vec![]), [0, 0]);
    assert_eq!(mix_frame(&vec![[1, 2], [3, 4], [-10, 5]]), [-6, 11]);
    // Saturation happens at each step, so the order shows.
    assert_eq!(mix_frame(&vec![[30_000, 0], [30_000, 0], [-30_000, 0]]), [2767, 0]);
    assert_eq!(mix_frame(&vec![[30_000, 0], [-30_000, 0], [30_000, 0]]), [30_000, 0]);
}

#[test]
fn resting_events_render_silence() {
    let data = silent_file(1, 0, 8, 8);
    let mut player = Player::new(&data, 8000).unwrap();
    player.song.percussion_track.kit = kit_with_cymbal(ramp(100));
    player.song.melody_tracks[0].len = 500;
    player.song.melody_tracks[0].base.vol = 300;
    for _ in 0..200 {
        assert!(frame_voices(&mut player).is_empty());
    }
    assert_eq!(mix_frame(&vec![]), [0, 0]);
    assert!(render(&mut player, 300).iter().all(|sample| *sample == 0));
}

#[test]
fn louder_volume_is_never_quieter() {
    let mut last = -1.0f64;
    for vol in [0u32, 100, 200, 300] {
        let mut lead = quiet(1);
        lead.len = 4000;
        lead.vol = vol;
        lead.octave = 2;
        lead.envelope = [255; 64];
        for i in 0..256usize {
            lead.waveform[i] = if i < 128 { 100 } else { 156 };
        }
        lead.events = vec![0b1001];
        let data = song_file(1000, 0, 1, [lead, quiet(1), quiet(1)], vol, vec![1 << 12]);
        let mut player = Player::new(&data, 44_100).unwrap();
        player.song.percussion_track.kit = kit_with_cymbal(ramp(400));
        let out = render(&mut player, 2000);
        let energy: f64 = out.iter().map(|sample| f64::from(*sample) * f64::from(*sample)).sum();
        let rms = (energy / out.len() as f64).sqrt();
        assert!(rms >= last);
        last = rms;
    }
    assert!(last > 0.0);
}

#[test]
fn drum_kit_takes_six_recordings() {
    let kit = DrumKit::new(vec![1], vec![2, 2], vec![3], vec![4], vec![5], vec![6]).unwrap();
    assert_eq!(kit.sample(Drum::Bass1), &vec![1]);
    assert_eq!(kit.sample(Drum::Bass2), &vec![2, 2]);
    assert_eq!(kit.sample(Drum::Snare), &vec![3]);
    assert_eq!(kit.sample(Drum::Hat1), &vec![4]);
    assert_eq!(kit.sample(Drum::Hat2), &vec![5]);
    assert_eq!(kit.sample(Drum::Cymbal), &vec![6]);
    let empty = DrumKit::default();
    assert!(empty.sample(Drum::Cymbal).is_empty());
}

#[test]
fn new_player_starts_at_the_first_event() {
    let data = silent_file(20, 1, 3, 3);
    let player = Player::new(&data, 44_100).unwrap();
    assert_eq!(player.sample_rate, 44_100);
    assert_eq!(player.wait_timer, 0);
    assert_eq!(player.event_cursor, 0);
    assert_eq!(player.n_events(), 3);
    assert_eq!(player.song.event_wait_ms, 20);
    assert!(Player::new(b"PMX", 44_100).is_err());
    assert!(Player::new(&data[..500], 44_100).is_err());
    let stopped = Player::new(&data, 0).unwrap();
    assert_eq!(stopped.sample_rate, 0);
    assert!(stopped.voices.is_empty());
}

fn press_and_render<T: Track>(track: &mut T, event: Event, rate: u16) -> Vec<Voice> {
    let mut voices: Vec<Voice> = Vec::new();
    track.do_event(event);
    track.render_next(&mut voices, rate);
    voices
}

#[test]
fn tracks_share_one_interface() {
    let mut melody = piyopiyo::MelodyTrack::default();
    melody.len = 2;
    melody.waveform = [3; 256];
    melody.envelope = [5; 64];
    let voices = press_and_render(&mut melody, Event(0b11), 22_050);
    assert_eq!(voices.len(), 2);
    assert_eq!(voices[0].numer, 3 * 2 * 5);
    assert_eq!(melody.note_duration(9), 2);
    assert_eq!(melody.timers(22_050)[1], 1);
    let mut drums = piyopiyo::PercussionTrack::default();
    drums.kit = kit_with_cymbal(vec![128, 130, 128]);
    let voices = press_and_render(&mut drums, Event(1 << 20), 22_050);
    assert_eq!(voices.len(), 1);
    assert_eq!(voices[0].numer, 256 * 2 * 22_050);
    assert_eq!(drums.note_duration(20), 3);
    assert_eq!(drums.note_duration(0), 0);
    assert_eq!(drums.timers(22_050)[20], 2);
}

#[test]
fn tracks_work_as_trait_objects() {
    let mut melody = piyopiyo::MelodyTrack::default();
    melody.len = 4;
    let mut drums = piyopiyo::PercussionTrack::default();
    drums.kit = kit_with_cymbal(vec![128; 8]);
    let tracks: [&mut dyn Track; 2] = [&mut melody, &mut drums];
    let mut durations: Vec<u32> = Vec::new();
    for track in tracks {
        track.do_event(Event(1 << 15));
        durations.push(track.note_duration(15));
        assert_eq!(track.sample_of_key(15, 44_100).numer, 0);
    }
    assert_eq!(durations, vec![4, 8]);
    assert_eq!(melody.base.keys[15], KeyState { span: 4, frames: 0, phase: 2 * 1848 });
    assert_eq!(drums.base.keys[15], KeyState { span: 8, frames: 0, phase: 1 });
}

/// A melody track with one waveform sample and one envelope step that are
/// not zero.
fn one_spot_melody() -> piyopiyo::MelodyTrack {
    let mut track = piyopiyo::MelodyTrack::default();
    track.len = 100;
    track.octave = 1;
    track.base.vol = 300;
    track.waveform[1] = 10;
    track.envelope[0] = 255;
    track
}

#[test]
fn melody_key_steps_its_phase_before_it_reads() {
    let mut track = one_spot_melody();
    let mut keys = [false; 24];
    keys[12] = true;
    track.do_event(Event::from_keydown_array(keys));
    let before = track.base.keys;
    let voice = track.sample_of_key(12, 22_050);
    // The step is 2 * (1551 / 8) = 387.75, which is 6204 sixteenths: the
    // waveform is read at place 387 / 256 = 1.
    assert_eq!(voice, Voice { numer: 10 * 2 * 255, denom: 1, mix: Some(0), left: 0, right: 0 });
    assert_eq!(sound(voice), [5100, 5100]);
    assert_eq!(track.base.keys[12], KeyState { span: 100, frames: 0, phase: 6204 });
    for key in 0..24usize {
        if key != 12 {
            assert_eq!(track.base.keys[key], before[key]);
        }
    }
    assert_eq!(track.base.vol, 300);
    assert_eq!(track.len, 100);
    assert_eq!(track.octave, 1);
}

#[test]
fn melody_key_sounds_with_the_pan_of_its_event() {
    let mut track = one_spot_melody();
    track.do_event(Event(0x0100_1000));
    let voice = track.sample_of_key(12, 22_050);
    assert_eq!(voice, Voice { numer: 5100, denom: 1, mix: Some(0), left: 0, right: -1600 });
    assert_eq!(sound(voice), [5100, 808]);
}

#[test]
fn melody_phase_grows_by_the_step_of_key_and_octave() {
    let table: [u64; 12] = [1551, 1652, 1747, 1848, 1955, 2074, 2205, 2324, 2461, 2616, 2770, 2938];
    for octave in 0..8u8 {
        for key in 0..24u8 {
            let mut track = piyopiyo::MelodyTrack::default();
            track.octave = octave;
            for i in 0..256usize {
                track.waveform[i] = i as u8 as i8;
            }
            track.envelope = [1; 64];
            track.base.keys[key as usize].phase = 1_000_000;
            let before = track.base.keys;
            let voice = track.sample_of_key(key, 48_000);
            let tone = if key < 12 { table[key as usize] } else { 2 * table[key as usize - 12] };
            let phase = 1_000_000 + (tone << octave);
            assert_eq!(track.base.keys[key as usize].phase, phase);
            assert_eq!(track.base.keys[key as usize].frames, 0);
            // The whole part of phase * 22050 / (16 * 48000), by 256, within 256.
            let place = (u128::from(phase) * 22_050 / (16 * 48_000) / 256 % 256) as usize;
            assert_eq!(voice.numer, i64::from(track.waveform[place]) * 2);
            for other in 0..24usize {
                if other != key as usize {
                    assert_eq!(track.base.keys[other], before[other]);
                }
            }
        }
    }
}

#[test]
fn percussion_key_reads_the_recording_call_by_call() {
    let cymbal = ramp(300);
    let mut drums = piyopiyo::PercussionTrack::default();
    drums.kit = DrumKit::new(vec![1; 9], vec![2; 9], vec![3; 9], vec![4; 9], vec![5; 9], cymbal.clone())
        .unwrap();
    drums.base.vol = 250;
    drums.do_event(Event(1 << 12));
    for n in 1..=256usize {
        let voice = drums.sample_of_key(12, 22_050);
        assert_eq!(voice.numer, 256 * (i64::from(cymbal[n]) - 128) * 22_050);
        assert_eq!(voice.denom, 22_050);
        assert_eq!(voice.mix, Some(-400));
        assert_eq!(drums.base.keys[12], KeyState { span: 300, frames: 0, phase: n as u64 });
    }
}

#[test]
fn percussion_playhead_moves_on_past_the_end() {
    let mut drums = piyopiyo::PercussionTrack::default();
    drums.kit = kit_with_cymbal(vec![200, 100, 50]);
    drums.base.vol = 300;
    drums.do_event(Event(1 << 23));
    let mut amplitudes: Vec<i64> = Vec::new();
    for call in 1..=6u64 {
        let voice = drums.sample_of_key(23, 22_050);
        amplitudes.push(voice.numer / 22_050);
        assert_eq!(drums.base.keys[23].phase, call);
        assert_eq!(sound(voice), sound(Voice { numer: voice.numer, ..voice }));
    }
    // Recording places 1 and 2, then silence past the end.
    assert_eq!(amplitudes, vec![256 * (100 - 128), 256 * (50 - 128), 0, 0, 0, 0]);
    assert_eq!(drums.mix_low, Some(-720));
}

#[test]
fn percussion_joins_samples_at_the_new_playhead() {
    let mut drums = piyopiyo::PercussionTrack::default();
    drums.kit = DrumKit::new(vec![128, 148, 108, 138], vec![], vec![], vec![], vec![], vec![]).unwrap();
    drums.base.vol = 300;
    drums.do_event(Event(0b11));
    // Half a recording sample a frame: the playhead is at 0.5.
    let even = drums.sample_of_key(0, 44_100);
    assert_eq!(even.denom, 44_100);
    assert_eq!(even.numer, 256 * (0 * 44_100 + 22_050 * 20));
    assert_eq!(even.mix, Some(0));
    assert_eq!(sound(even), [2560, 2560]);
    assert_eq!(drums.base.keys[0].phase, 1);
    assert_eq!(drums.base.keys[1].phase, 0);
    // The odd key has the lower gain of its own.
    let odd = drums.sample_of_key(1, 44_100);
    assert_eq!(odd.numer, even.numer);
    assert_eq!(odd.mix, Some(-720));
    // Playhead 2.5: between 108 and 138.
    drums.base.keys[0].phase = 4;
    let rising = drums.sample_of_key(0, 44_100);
    assert_eq!(drums.base.keys[0].phase, 5);
    assert_eq!(rising.numer, 256 * (-20 * 44_100 + 22_050 * 30));
    // Playhead 3.5: at the last sample there is no next one to join.
    drums.base.keys[0].phase = 6;
    let last = drums.sample_of_key(0, 44_100);
    assert_eq!(drums.base.keys[0].phase, 7);
    assert_eq!(last.numer, 256 * 10 * 44_100);
    // Playhead 4: past the end.
    let over = drums.sample_of_key(0, 44_100);
    assert_eq!(drums.base.keys[0].phase, 8);
    assert_eq!(over.numer, 0);
}
