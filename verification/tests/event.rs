use piyopiyo::event::{pan_entry, piano_keys, Event, N_KEYS};

#[test]
fn default_event_is_empty() {
    let event = Event::default();
    assert_eq!(event.0, 0);
    for key in piano_keys() {
        assert!(!event.key_down(key));
    }
    assert_eq!(event.pan(), None);
}

#[test]
fn press_then_release_each_key() {
    for key in 0..24u8 {
        let mut event = Event::default();
        event.set_key_down(key);
        assert!(event.key_down(key));
        assert_eq!(event.0, 1u32 << key);
        event.set_key_up(key);
        assert!(!event.key_down(key));
        assert_eq!(event.0, 0);
    }
}

#[test]
fn press_keeps_other_keys_and_pan() {
    let mut event = Event(0x0300_0005);
    event.set_key_down(7);
    assert_eq!(event.0, 0x0300_0085);
    assert!(event.key_down(0));
    assert!(!event.key_down(1));
    assert!(event.key_down(2));
    assert!(event.key_down(7));
    assert_eq!(event.pan(), Some(320));
    event.set_key_up(0);
    assert_eq!(event.0, 0x0300_0084);
    assert_eq!(event.pan(), Some(320));
}

#[test]
fn press_twice_is_press_once() {
    let mut event = Event::default();
    event.set_key_down(23);
    event.set_key_down(23);
    assert_eq!(event.0, 0x0080_0000);
    event.set_key_up(3);
    assert_eq!(event.0, 0x0080_0000);
}

#[test]
fn from_keydown_array_matches_each_key() {
    let mut arr = [false; 24];
    arr[0] = true;
    arr[5] = true;
    arr[23] = true;
    let event = Event::from_keydown_array(arr);
    assert_eq!(event.0, 0x0080_0021);
    for key in 0..24u8 {
        assert_eq!(event.key_down(key), arr[key as usize]);
    }
    assert_eq!(event.pan(), None);
}

#[test]
fn from_keydown_array_of_each_single_key() {
    for key in 0..24usize {
        let mut arr = [false; 24];
        arr[key] = true;
        let event = Event::from_keydown_array(arr);
        assert_eq!(event.0, 1u32 << key);
    }
    assert_eq!(Event::from_keydown_array([false; 24]).0, 0);
    assert_eq!(Event::from_keydown_array([true; 24]).0, 0x00FF_FFFF);
}

#[test]
fn pan_table_entries() {
    let table: [i16; 8] = [2560, 1600, 760, 320, 0, -320, -760, -1640];
    for index in 1..8u32 {
        assert_eq!(Event(index << 24).pan(), Some(table[index as usize]));
        assert_eq!(Event((index << 24) | 0x00AB_CDEF).pan(), Some(table[index as usize]));
    }
    for index in 0..8usize {
        assert_eq!(pan_entry(index), table[index]);
    }
}

#[test]
fn pan_byte_zero_is_no_pan() {
    assert_eq!(Event(0).pan(), None);
    assert_eq!(Event(0x00FF_FFFF).pan(), None);
}

#[test]
fn pan_index_is_taken_within_the_table() {
    assert_eq!(Event(0x0800_0000).pan(), Some(2560));
    assert_eq!(Event(0x0900_0000).pan(), Some(1600));
    assert_eq!(Event(0xFF00_0000).pan(), Some(-1640));
}

#[test]
fn piano_keys_are_all_24() {
    let keys = piano_keys();
    assert_eq!(keys.start, 0);
    assert_eq!(keys.end, 24);
    assert_eq!(N_KEYS, 24);
    assert_eq!(keys.count(), 24);
}
