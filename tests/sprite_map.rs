use runty8::map::{SpriteMap, HEIGHT_SPRITES, MAP_SIZE, WIDTH_SPRITES};

#[test]
fn new_map_has_three_ones() {
    let m = SpriteMap::new();
    let cells = m.iter();
    assert_eq!(cells.len(), MAP_SIZE);
    assert_eq!(&cells[..4], &[1, 1, 1, 0]);
    assert!(cells[3..].iter().all(|c| *c == 0));
    assert_eq!(MAP_SIZE, WIDTH_SPRITES * HEIGHT_SPRITES);
}

#[test]
fn from_slice_overwrites_prefix() {
    let m = SpriteMap::from_slice(&[9, 8]);
    assert_eq!(&m.iter()[..4], &[9, 8, 1, 0]);
}

#[test]
fn mset_then_mget() {
    let mut m = SpriteMap::default();
    m.mset(5, 2, 42);
    assert_eq!(m.mget(5, 2), 42);
    assert_eq!(m.iter()[5 + 2 * 128], 42);
    assert_eq!(m.mget(127, 63), 0);
}

#[test]
fn deserialize_reads_hex_pairs() {
    let mut text = String::from("0a Ff\n");
    for _ in 2..MAP_SIZE {
        text.push_str("00 ");
    }
    let m = SpriteMap::deserialize(&text).unwrap();
    assert_eq!(&m.iter()[..3], &[10, 255, 0]);
}

#[test]
fn deserialize_rejects_wrong_size() {
    let err = SpriteMap::deserialize("01 0").unwrap_err();
    assert_eq!(err, "Error deserializing map 1");
    let err = SpriteMap::deserialize("").unwrap_err();
    assert_eq!(err, "Error deserializing map 0");
}

#[test]
fn serialize_writes_rows_of_upper_hex() {
    let mut m = SpriteMap::new();
    m.mset(1, 0, 0xab);
    let text = m.serialize();
    let lines: Vec<&str> = text.split('\n').collect();
    assert_eq!(lines.len(), HEIGHT_SPRITES);
    assert!(lines[0].starts_with("01 AB 01 00 "));
    assert_eq!(lines[1].len(), WIDTH_SPRITES * 3 - 1);
    assert!(!text.ends_with('\n'));
}

#[test]
fn serialize_round_trips() {
    let mut m = SpriteMap::new();
    m.mset(7, 9, 200);
    let back = SpriteMap::deserialize(&m.serialize()).unwrap();
    assert_eq!(back.iter(), m.iter());
}

#[test]
fn map_file_name() {
    assert_eq!(SpriteMap::file_name(), "map.txt");
}
