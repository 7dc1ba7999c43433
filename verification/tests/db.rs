use rmus::db::{from_row, load_library, to_row, upsert_rows, StoredSong};
use rmus::library::LibraryEntry;
use rmus::time::Duration;

fn entry(duration: Duration) -> LibraryEntry {
    LibraryEntry {
        path: "/a.mp3".to_string(),
        artist: "artist".to_string(),
        album: "album".to_string(),
        year: Some(1999),
        track_number: Some(7),
        title: "title".to_string(),
        duration,
    }
}

fn row(artist: &str, title: &str) -> StoredSong {
    StoredSong {
        path: format!("/{title}.mp3"),
        artist: artist.to_string(),
        album: "album".to_string(),
        year: None,
        track_number: None,
        title: title.to_string(),
        duration_ms: 1500,
    }
}

#[test]
fn an_entry_becomes_a_row() {
    let r = to_row(&entry(Duration { secs: 3, nanos: 141_592_653 }));
    assert_eq!(r.path, "/a.mp3");
    assert_eq!(r.artist, "artist");
    assert_eq!(r.album, "album");
    assert_eq!(r.year, Some(1999));
    assert_eq!(r.track_number, Some(7));
    assert_eq!(r.title, "title");
    assert_eq!(r.duration_ms, 3141);
}

#[test]
fn a_row_becomes_an_entry() {
    let e = from_row(StoredSong { year: Some(2001), track_number: Some(4), ..row("a", "t") });
    assert_eq!(e.path, "/t.mp3");
    assert_eq!(e.artist, "a");
    assert_eq!(e.album, "album");
    assert_eq!(e.year, Some(2001));
    assert_eq!(e.track_number, Some(4));
    assert_eq!(e.title, "t");
    assert_eq!(e.duration, Duration { secs: 1, nanos: 500_000_000 });
}

#[test]
fn what_is_stored_is_loaded_but_for_fractions_of_a_millisecond() {
    let e = from_row(to_row(&entry(Duration { secs: 3, nanos: 141_592_653 })));
    assert_eq!(e.duration, Duration { secs: 3, nanos: 141_000_000 });
    assert_eq!(e.year, Some(1999));
    assert_eq!(to_row(&e).duration_ms, 3141);
}

#[test]
fn missing_numbers_stay_missing() {
    let e = LibraryEntry { year: None, track_number: None, ..entry(Duration { secs: 0, nanos: 0 }) };
    let r = to_row(&e);
    assert_eq!(r.year, None);
    assert_eq!(r.track_number, None);
    let back = from_row(r);
    assert_eq!(back.year, None);
    assert_eq!(back.track_number, None);
}

#[test]
fn numbers_that_do_not_fit_wrap() {
    let e = from_row(StoredSong {
        year: Some(65_536 + 3),
        track_number: Some(4_294_967_296 + 9),
        duration_ms: -1,
        ..row("a", "t")
    });
    assert_eq!(e.year, Some(3));
    assert_eq!(e.track_number, Some(9));
    assert_eq!(e.duration, Duration { secs: u64::MAX / 1000, nanos: 615_000_000 });
    let long = to_row(&entry(Duration { secs: u64::MAX, nanos: 0 }));
    assert_eq!(long.duration_ms, (u64::MAX as u128 * 1000) as i64);
}

#[test]
fn rows_keep_the_order_of_the_entries() {
    let mut second = entry(Duration { secs: 0, nanos: 0 });
    second.path = "/b.mp3".to_string();
    let rows = upsert_rows(&vec![entry(Duration { secs: 0, nanos: 0 }), second]);
    assert_eq!(rows.len(), 2);
    assert_eq!(rows[0].path, "/a.mp3");
    assert_eq!(rows[1].path, "/b.mp3");
}

#[test]
fn rows_are_grouped_into_a_library() {
    let library = load_library(vec![row("b", "1"), row("a", "2"), row("b", "0")]);
    assert_eq!(library.artists.len(), 2);
    assert_eq!(library.artists[0].name, "a");
    assert_eq!(library.artists[1].name, "b");
    assert_eq!(library.artists[1].songs[0].title, "0");
    assert_eq!(library.artists[1].songs[1].title, "1");
    assert_eq!(library.artists[1].songs[1].duration, Duration { secs: 1, nanos: 500_000_000 });
}

#[test]
fn milliseconds_and_seconds() {
    let d = Duration::from_millis(61_234);
    assert_eq!(d, Duration { secs: 61, nanos: 234_000_000 });
    assert_eq!(d.as_millis(), 61_234);
    assert_eq!(d.as_secs(), 61);
    assert_eq!(Duration::zero(), Duration { secs: 0, nanos: 0 });
}
