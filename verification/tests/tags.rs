use rmus::tags::{read_tags, song_tags, TagFields, TaggedAudio};
use rmus::time::Duration;

/// Silent frames at 128 kbit/s and 44.1 kHz.
fn frames(count: usize) -> Vec<u8> {
    let mut bytes = Vec::new();
    for _ in 0..count {
        bytes.extend_from_slice(&[0xff, 0xfb, 0x90, 0x00]);
        bytes.resize(bytes.len() + 413, 0);
    }
    bytes
}

fn id3v2(fields: &[(&str, &str)]) -> Vec<u8> {
    let mut body = Vec::new();
    for (id, text) in fields {
        body.extend_from_slice(id.as_bytes());
        body.extend_from_slice(&(text.len() as u32 + 1).to_be_bytes());
        body.extend_from_slice(&[0, 0, 3]);
        body.extend_from_slice(text.as_bytes());
    }
    let size = body.len() as u32;
    let mut bytes = b"ID3".to_vec();
    bytes.extend_from_slice(&[4, 0, 0]);
    for shift in [21, 14, 7, 0] {
        bytes.push(((size >> shift) & 0x7f) as u8);
    }
    bytes.extend_from_slice(&body);
    bytes
}

fn id3v1(title: &str, artist: &str, album: &str) -> Vec<u8> {
    let mut bytes = b"TAG".to_vec();
    for (text, len) in [(title, 30), (artist, 30), (album, 30), ("", 4), ("", 30)] {
        let mut field = text.as_bytes().to_vec();
        field.resize(len, 0);
        bytes.extend_from_slice(&field);
    }
    bytes.push(255);
    bytes
}

fn no_fields() -> TagFields {
    TagFields { artist: None, title: None, album: None, year: None, track_number: None }
}

#[test]
fn tags_are_read_from_the_bytes() {
    let mut bytes = id3v2(&[
        ("TPE1", "Nina"),
        ("TIT2", "Blues"),
        ("TALB", "Live"),
        ("TDRC", "1968"),
        ("TRCK", "7"),
    ]);
    bytes.extend(frames(100));
    let tags = read_tags("/x.mp3", Some("x".to_string()), &bytes).unwrap();
    assert_eq!(tags.artist, "Nina");
    assert_eq!(tags.title, "Blues");
    assert_eq!(tags.album, "Live");
    assert_eq!(tags.year, Some(1968));
    assert_eq!(tags.track_number, Some(7));
    assert_eq!(tags.duration.secs, 2);
}

#[test]
fn an_untagged_file_gets_its_name_as_title() {
    let tags = read_tags("/x.mp3", Some("x".to_string()), &frames(100)).unwrap();
    assert_eq!(tags.artist, "Unknown Artist");
    assert_eq!(tags.title, "x");
    assert_eq!(tags.album, "Unknown Album");
    assert_eq!(tags.year, None);
    assert_eq!(tags.track_number, None);
    let nameless = read_tags("/x.mp3", None, &frames(100)).unwrap();
    assert_eq!(nameless.title, "Unknown Title");
}

#[test]
fn blank_fields_count_as_missing() {
    let mut bytes = id3v2(&[("TPE1", "  "), ("TIT2", " "), ("TALB", "   ")]);
    bytes.extend(frames(100));
    let tags = read_tags("/x.mp3", Some("x".to_string()), &bytes).unwrap();
    assert_eq!(tags.artist, "Unknown Artist");
    assert_eq!(tags.title, "x");
    assert_eq!(tags.album, "Unknown Album");
}

#[test]
fn a_tag_of_another_kind_is_used_without_a_primary_one() {
    let mut bytes = frames(100);
    bytes.extend(id3v1("Song", "Singer", "Record"));
    let tags = read_tags("/x.mp3", None, &bytes).unwrap();
    assert_eq!(tags.title, "Song");
    assert_eq!(tags.artist, "Singer");
    assert_eq!(tags.album, "Record");
}

#[test]
fn what_is_no_mp3_is_an_error_with_the_path() {
    let err = read_tags("/x.mp3", None, b"this is no music").unwrap_err();
    assert!(err.message.starts_with("/x.mp3: "));
    assert!(err.message.len() > "/x.mp3: ".len());
}

#[test]
fn the_primary_tag_goes_before_the_first() {
    let audio = TaggedAudio {
        duration: Duration { secs: 1, nanos: 2 },
        primary_tag: Some(TagFields { artist: Some("primary".to_string()), year: Some(1), ..no_fields() }),
        first_tag: Some(TagFields { artist: Some("first".to_string()), track_number: Some(9), ..no_fields() }),
    };
    let tags = song_tags(audio, Some("stem".to_string()));
    assert_eq!(tags.artist, "primary");
    assert_eq!(tags.year, Some(1));
    assert_eq!(tags.track_number, None);
    assert_eq!(tags.title, "stem");
    assert_eq!(tags.album, "Unknown Album");
    assert_eq!(tags.duration, Duration { secs: 1, nanos: 2 });
}

#[test]
fn values_keep_their_blanks() {
    let audio = TaggedAudio {
        duration: Duration { secs: 0, nanos: 0 },
        primary_tag: None,
        first_tag: Some(TagFields {
            artist: Some(" a ".to_string()),
            title: Some("\u{3000}".to_string()),
            album: Some("".to_string()),
            year: None,
            track_number: Some(2),
        }),
    };
    let tags = song_tags(audio, None);
    assert_eq!(tags.artist, " a ");
    assert_eq!(tags.title, "Unknown Title");
    assert_eq!(tags.album, "Unknown Album");
    assert_eq!(tags.track_number, Some(2));
}

#[test]
fn no_tag_at_all() {
    let audio = TaggedAudio { duration: Duration { secs: 5, nanos: 0 }, primary_tag: None, first_tag: None };
    let tags = song_tags(audio, Some("stem".to_string()));
    assert_eq!(tags.artist, "Unknown Artist");
    assert_eq!(tags.title, "stem");
    assert_eq!(tags.album, "Unknown Album");
    assert_eq!(tags.year, None);
    assert_eq!(tags.track_number, None);
    assert_eq!(tags.duration, Duration { secs: 5, nanos: 0 });
}
