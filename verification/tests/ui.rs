use rmus::library::Song;
use rmus::player::{NowPlaying, PlayerStatus};
use rmus::time::Duration;
use rmus::ui::{
    can_format_title, can_show_now_playing, can_show_songs, format_duration, format_title,
    now_playing_line, song_line, song_rows, Row,
};

fn song(title: &str, album: &str, year: Option<u16>, track: Option<u32>, secs: u64) -> Song {
    Song {
        title: title.to_string(),
        album: album.to_string(),
        year,
        track_number: track,
        path: "/p.mp3".to_string(),
        duration: Duration { secs, nanos: 999_999_999 },
    }
}

fn now(artist_idx: usize, song_idx: usize) -> Option<NowPlaying> {
    Some(NowPlaying {
        artist: "Artist".to_string(),
        title: "Title".to_string(),
        duration: Duration { secs: 200, nanos: 0 },
        artist_idx,
        song_idx,
    })
}

fn shown(rows: &[Row]) -> Vec<String> {
    rows.iter()
        .map(|row| match row {
            Row::Album(text) => format!("# {text}"),
            Row::Song { text, is_playing } => format!("{is_playing} {text}"),
        })
        .collect()
}

#[test]
fn durations_have_two_digits_or_more() {
    assert_eq!(format_duration(Duration { secs: 0, nanos: 0 }), "00:00");
    assert_eq!(format_duration(Duration { secs: 59, nanos: 999_999_999 }), "00:59");
    assert_eq!(format_duration(Duration { secs: 125, nanos: 0 }), "02:05");
    assert_eq!(format_duration(Duration { secs: 6000, nanos: 0 }), "100:00");
    assert_eq!(format_duration(Duration { secs: u64::MAX, nanos: 0 }), "307445734561825860:15");
}

#[test]
fn long_titles_are_cut() {
    assert_eq!(format_title("abcdef".to_string(), 30, 25), "abcde…");
    assert_eq!(format_title("abcde".to_string(), 30, 25), "abcde");
    assert_eq!(format_title("abcdef".to_string(), 25, 25), "…");
    assert_eq!(format_title("".to_string(), 25, 25), "");
    assert_eq!(format_title("aéb".to_string(), 28, 25), "aé…");
}

#[test]
fn titles_are_measured_in_bytes_and_cut_between_characters() {
    assert!(can_format_title("aéb", 28, 25));
    assert!(!can_format_title("aéb", 27, 25));
    assert!(can_format_title("aéb", 29, 25));
    assert!(can_format_title("éé", 29, 25));
    assert!(can_format_title("x", 24, 25));
    assert!(can_format_title(&"x".repeat(70_000), 24, 25));
    assert!(!can_format_title(&"é".repeat(40_000), 24, 25));
    assert!(can_format_title("xyz", 25, 25));
}

#[test]
fn a_song_row_fills_the_pane() {
    let s = song("Title", "Album", None, Some(7), 65);
    let line = song_line(&s, None, false, 60);
    assert_eq!(line, format!("  07. Title{}-- kbps 01:05", " ".repeat(34)));
    assert_eq!(line.chars().count(), 58);
    let playing = song_line(&s, Some(320), true, 60);
    assert_eq!(playing, format!("▶ 07. Title{}320 kbps 01:05", " ".repeat(33)));
    assert_eq!(playing.chars().count(), 58);
}

#[test]
fn a_song_row_keeps_one_blank_when_there_is_no_room() {
    let s = song("0123456789", "Album", None, None, 6000);
    assert_eq!(song_line(&s, Some(128), false, 26), "  --  0… 128 kbps 100:00");
    let t = song("0123456789", "Album", None, Some(100), 5);
    assert_eq!(song_line(&t, None, false, 35), format!("  100. 0123456789{}-- kbps 00:05", " ".repeat(3)));
}

#[test]
fn albums_have_headings_and_shift_the_selection() {
    let songs = vec![
        song("A", "New", Some(1999), Some(1), 1),
        song("B", "New", Some(1999), Some(2), 2),
        song("C", "New", None, Some(1), 3),
    ];
    let (rows, selected) = song_rows(&songs, 4, 2, &now(4, 1), 40);
    let gap = " ".repeat(18);
    assert_eq!(
        shown(&rows),
        vec![
            "# New (1999)".to_string(),
            format!("false   01. A{gap}-- kbps 00:01"),
            format!("true ▶ 02. B{gap}-- kbps 00:02"),
            "# New".to_string(),
            format!("false   01. C{gap}-- kbps 00:03"),
        ]
    );
    assert_eq!(selected, Some(4));
    assert_eq!(song_rows(&songs, 4, 0, &None, 40).1, Some(1));
    assert_eq!(song_rows(&songs, 4, 1, &None, 40).1, Some(2));
    assert_eq!(song_rows(&songs, 4, 3, &None, 40).1, None);
}

#[test]
fn only_the_loaded_song_is_marked() {
    let songs = vec![song("A", "X", None, None, 1), song("B", "X", None, None, 1)];
    let count = |np: Option<NowPlaying>| {
        let (rows, _) = song_rows(&songs, 4, 0, &np, 40);
        rows.iter().filter(|r| matches!(r, Row::Song { is_playing: true, .. })).count()
    };
    assert_eq!(count(None), 0);
    assert_eq!(count(now(4, 0)), 1);
    assert_eq!(count(now(5, 0)), 0);
    assert_eq!(count(now(4, 2)), 0);
}

#[test]
fn no_songs_give_no_rows() {
    let (rows, selected) = song_rows(&vec![], 0, 0, &None, 0);
    assert_eq!(rows.len(), 0);
    assert_eq!(selected, None);
    assert!(can_show_songs(&vec![], 0));
}

#[test]
fn a_pane_that_cuts_a_character_cannot_show_songs() {
    let songs = vec![song("Aé", "X", None, None, 1)];
    assert!(can_show_songs(&songs, 24));
    assert!(can_show_songs(&songs, 26));
    assert!(!can_show_songs(&songs, 27));
    assert!(can_show_songs(&songs, 28));
}

#[test]
fn nothing_playing() {
    let (left, right, columns) = now_playing_line(&PlayerStatus::default(), "100%", 0);
    assert_eq!(left, "Nothing playing.");
    assert_eq!(right, "");
    assert_eq!(columns, 0);
    assert!(can_show_now_playing(&PlayerStatus::default(), 0));
}

#[test]
fn the_playing_song_is_shown_with_time_and_volume() {
    let mut status = PlayerStatus::default();
    status.current = now(0, 0);
    status.elapsed = Duration { secs: 61, nanos: 0 };
    let (left, right, columns) = now_playing_line(&status, "95%", 80);
    assert_eq!(left, "[Playing] Artist - Title");
    assert_eq!(right, "01:01/03:20  Vol  95%");
    assert_eq!(columns, 21);
    status.is_paused = true;
    let (left, right, _) = now_playing_line(&status, "100%", 52);
    assert_eq!(left, "[Paused] Artist - Ti…");
    assert_eq!(right, "01:01/03:20  Vol 100%");
    assert!(can_show_now_playing(&status, 49));
    assert_eq!(now_playing_line(&status, "100%", 49).0, "[Paused] Artist - Title");
    status.current.as_mut().unwrap().title = "é".to_string();
    assert!(!can_show_now_playing(&status, 51));
}

#[test]
fn a_narrow_pane_shows_whole_titles() {
    assert_eq!(format_title("abcdef".to_string(), 24, 25), "abcdef");
    assert_eq!(format_title("x".repeat(65_536), 24, 25), format!("{}…", "x".repeat(65_535)));
    let s = song("Title", "Album", None, Some(7), 65);
    assert_eq!(song_line(&s, None, false, 10), "  07. Title -- kbps 01:05");
    assert_eq!(song_line(&s, None, false, 0), "  07. Title -- kbps 01:05");
}
