use rmus::library::{album_order, Library, LibraryEntry, Song};
use rmus::time::Duration;
use std::cmp::Ordering;

fn entry(artist: &str, album: &str, year: Option<u16>, track: Option<u32>, title: &str) -> LibraryEntry {
    LibraryEntry {
        path: format!("/music/{artist}/{album}/{title}.mp3"),
        artist: artist.to_string(),
        album: album.to_string(),
        year,
        track_number: track,
        title: title.to_string(),
        duration: Duration { secs: 60, nanos: 0 },
    }
}

fn song(album: &str, year: Option<u16>) -> Song {
    Song {
        title: "t".to_string(),
        album: album.to_string(),
        year,
        track_number: None,
        path: "p".to_string(),
        duration: Duration { secs: 0, nanos: 0 },
    }
}

fn titles(library: &Library, artist: usize) -> Vec<String> {
    library.artists[artist].songs.iter().map(|s| s.title.clone()).collect()
}

#[test]
fn nothing_gives_an_empty_library() {
    assert_eq!(Library::from_entries(vec![]).artists.len(), 0);
    assert_eq!(Library::default().artists.len(), 0);
}

#[test]
fn artists_are_listed_once_in_alphabetical_order() {
    let library = Library::from_entries(vec![
        entry("b", "x", None, None, "1"),
        entry("a", "x", None, None, "2"),
        entry("b", "x", None, None, "3"),
        entry("B", "x", None, None, "4"),
    ]);
    let names: Vec<String> = library.artists.iter().map(|a| a.name.clone()).collect();
    assert_eq!(names, vec!["B", "a", "b"]);
    assert_eq!(titles(&library, 2), vec!["1", "3"]);
}

#[test]
fn albums_come_newest_first_and_undated_last() {
    let library = Library::from_entries(vec![
        entry("a", "zz", None, Some(1), "undated z"),
        entry("a", "old", Some(1970), Some(1), "old"),
        entry("a", "aa", None, Some(1), "undated a"),
        entry("a", "new", Some(1999), Some(1), "new"),
        entry("a", "newer", Some(1999), Some(1), "newer"),
    ]);
    assert_eq!(titles(&library, 0), vec!["new", "newer", "old", "undated a", "undated z"]);
}

#[test]
fn tracks_come_by_number_and_then_by_title() {
    let library = Library::from_entries(vec![
        entry("a", "x", Some(2000), None, "b side"),
        entry("a", "x", Some(2000), None, "a side"),
        entry("a", "x", Some(2000), Some(2), "second"),
        entry("a", "x", Some(2000), Some(1), "first"),
        entry("a", "x", Some(2000), Some(u32::MAX), "aaa"),
    ]);
    assert_eq!(titles(&library, 0), vec!["first", "second", "a side", "aaa", "b side"]);
}

#[test]
fn equal_songs_keep_their_order() {
    let mut first = entry("a", "x", None, Some(1), "same");
    first.path = "first".to_string();
    let mut second = entry("a", "x", None, Some(1), "same");
    second.path = "second".to_string();
    let library = Library::from_entries(vec![first, second]);
    let paths: Vec<String> = library.artists[0].songs.iter().map(|s| s.path.clone()).collect();
    assert_eq!(paths, vec!["first", "second"]);
}

#[test]
fn albums_of_one_name_and_different_years_are_apart() {
    let library = Library::from_entries(vec![
        entry("a", "live", Some(1990), Some(1), "90/1"),
        entry("a", "live", Some(2000), Some(1), "00/1"),
        entry("a", "live", Some(1990), Some(2), "90/2"),
        entry("a", "live", Some(2000), Some(2), "00/2"),
    ]);
    assert_eq!(titles(&library, 0), vec!["00/1", "00/2", "90/1", "90/2"]);
}

#[test]
fn a_song_keeps_what_its_entry_says() {
    let library = Library::from_entries(vec![entry("a", "x", Some(2000), Some(3), "t")]);
    let s = &library.artists[0].songs[0];
    assert_eq!(s.title, "t");
    assert_eq!(s.album, "x");
    assert_eq!(s.year, Some(2000));
    assert_eq!(s.track_number, Some(3));
    assert_eq!(s.path, "/music/a/x/t.mp3");
    assert_eq!(s.duration, Duration { secs: 60, nanos: 0 });
}

#[test]
fn every_song_is_kept() {
    let mut entries = Vec::new();
    for k in 0..50u32 {
        entries.push(entry(&format!("artist {}", k % 7), &format!("album {}", k % 3), None, Some(k % 5), &format!("{k}")));
    }
    let library = Library::from_entries(entries);
    let count: usize = library.artists.iter().map(|a| a.songs.len()).sum();
    assert_eq!(library.artists.len(), 7);
    assert_eq!(count, 50);
}

#[test]
fn album_order_of_each_combination() {
    assert_eq!(album_order(&song("x", Some(1)), &song("x", Some(1))), Ordering::Equal);
    assert_eq!(album_order(&song("x", None), &song("x", None)), Ordering::Equal);
    assert_eq!(album_order(&song("x", Some(2)), &song("a", Some(1))), Ordering::Less);
    assert_eq!(album_order(&song("a", Some(1)), &song("x", Some(2))), Ordering::Greater);
    assert_eq!(album_order(&song("x", Some(1)), &song("a", None)), Ordering::Less);
    assert_eq!(album_order(&song("a", None), &song("x", Some(1))), Ordering::Greater);
    assert_eq!(album_order(&song("a", Some(1)), &song("b", Some(1))), Ordering::Less);
    assert_eq!(album_order(&song("b", None), &song("a", None)), Ordering::Greater);
}
