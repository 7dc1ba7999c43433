use rmus::app::{clamp_index, App, Effect, Focus, ImportOutcome, KeyCode, Mode, VOLUME_STEP};
use rmus::db::{DbError, StoredSong};
use rmus::library::LibraryError;
use rmus::player::{DeviceReport, NowPlaying, PlayerCommand, PlayerStatus};
use rmus::time::Duration;
use rmus::ui::{Row, Tone};

fn row(artist: &str, album: &str, year: i64, track: i64, title: &str) -> StoredSong {
    StoredSong {
        path: format!("/{artist}/{title}.mp3"),
        artist: artist.to_string(),
        album: album.to_string(),
        year: Some(year),
        track_number: Some(track),
        title: title.to_string(),
        duration_ms: 1000 * track,
    }
}

/// Abba: New (2000): Apple, Banana, Cherry; Old (1990): Date. Beck: Solo (1980): Egg.
/// Cab: Solo (1970): Fig, Grape.
fn rows() -> Vec<StoredSong> {
    vec![
        row("Cab", "Solo", 1970, 2, "Grape"),
        row("Abba", "Old", 1990, 1, "Date"),
        row("Abba", "New", 2000, 3, "Cherry"),
        row("Abba", "New", 2000, 1, "Apple"),
        row("Beck", "Solo", 1980, 1, "Egg"),
        row("Abba", "New", 2000, 2, "Banana"),
        row("Cab", "Solo", 1970, 1, "Fig"),
    ]
}

fn app() -> App {
    App::new(Ok(rows()))
}

fn idle() -> PlayerStatus {
    PlayerStatus::default()
}

fn loaded(artist_idx: usize, song_idx: usize) -> PlayerStatus {
    let mut status = PlayerStatus::default();
    status.current = Some(NowPlaying {
        artist: "a".to_string(),
        title: "t".to_string(),
        duration: Duration { secs: 1, nanos: 0 },
        artist_idx,
        song_idx,
    });
    status
}

fn key(app: &mut App, code: KeyCode) -> Vec<Effect> {
    app.handle_key(code, &idle())
}

fn keys(app: &mut App, text: &str) {
    for c in text.chars() {
        let effects = key(app, KeyCode::Char(c));
        assert_eq!(effects.len(), 0, "{c}");
    }
}

fn command(app: &mut App, text: &str) -> Vec<Effect> {
    keys(app, ":");
    for c in text.chars() {
        key(app, KeyCode::Char(c));
    }
    key(app, KeyCode::Enter)
}

fn played(effects: &[Effect]) -> Option<(usize, usize, String)> {
    match effects {
        [Effect::Send(PlayerCommand::Play(r))] => Some((r.artist_idx, r.song_idx, r.title.clone())),
        _ => None,
    }
}

fn message(app: &App) -> (String, bool) {
    let m = app.status_message.as_ref().unwrap();
    (m.text.clone(), m.is_error)
}

#[test]
fn starts_with_the_stored_library() {
    let app = app();
    let (names, selected) = app.artist_rows();
    assert_eq!(names, vec!["Abba", "Beck", "Cab"]);
    assert_eq!(selected, Some(0));
    assert_eq!(app.focus, Focus::Artists);
    assert_eq!(app.mode, Mode::Normal);
    assert!(app.status_message.is_none());
    assert!(!app.should_quit);
}

#[test]
fn starts_with_the_error_when_loading_fails() {
    let app = App::new(Err(DbError { message: "disk on fire".to_string() }));
    assert_eq!(app.artist_rows(), (vec![], None));
    assert_eq!(message(&app), ("disk on fire".to_string(), true));
}

#[test]
fn clamping() {
    assert_eq!(clamp_index(0, -1, 3), 0);
    assert_eq!(clamp_index(0, 1, 3), 1);
    assert_eq!(clamp_index(2, 1, 3), 2);
    assert_eq!(clamp_index(7, 0, 3), 2);
    assert_eq!(clamp_index(7, -1, 0), 0);
    assert_eq!(clamp_index(usize::MAX, 0, 3), 0);
}

#[test]
fn the_cursor_moves_in_the_focused_pane() {
    let mut a = app();
    keys(&mut a, "jj");
    assert_eq!((a.selected_artist, a.selected_song), (2, 0));
    keys(&mut a, "j");
    assert_eq!(a.selected_artist, 2);
    keys(&mut a, "lj");
    assert_eq!((a.selected_artist, a.selected_song), (2, 1));
    keys(&mut a, "j");
    assert_eq!(a.selected_song, 1);
    keys(&mut a, "k");
    assert_eq!(a.selected_song, 0);
    keys(&mut a, "hk");
    assert_eq!((a.focus, a.selected_artist), (Focus::Artists, 1));
    keys(&mut a, "kkk");
    assert_eq!(a.selected_artist, 0);
}

#[test]
fn jumping_to_either_end() {
    let mut a = app();
    keys(&mut a, "G");
    assert_eq!(a.selected_artist, 2);
    keys(&mut a, "g");
    assert_eq!(a.selected_artist, 0);
    keys(&mut a, "l");
    key(&mut a, KeyCode::End);
    assert_eq!(a.selected_song, 3);
    key(&mut a, KeyCode::Home);
    assert_eq!(a.selected_song, 0);
    keys(&mut a, "Ghj");
    assert_eq!((a.selected_artist, a.selected_song), (1, 0));
}

#[test]
fn nothing_moves_in_an_empty_library() {
    let mut a = App::new(Ok(vec![]));
    keys(&mut a, "jkgGljkgG");
    assert_eq!((a.selected_artist, a.selected_song), (0, 0));
    assert_eq!(key(&mut a, KeyCode::Enter).len(), 0);
    assert_eq!(message(&a), ("".to_string(), false));
}

#[test]
fn keys_clear_the_message() {
    let mut a = App::new(Err(DbError { message: "oops".to_string() }));
    keys(&mut a, "j");
    assert_eq!(message(&a), ("".to_string(), false));
}

#[test]
fn an_artist_plays_from_the_first_song_and_an_album_plays_through() {
    let mut a = app();
    let effects = key(&mut a, KeyCode::Enter);
    assert_eq!(played(&effects), Some((0, 0, "Apple".to_string())));
    let mut status = idle();
    status.just_finished = true;
    let effects = a.sync_player_status(&mut status);
    assert!(!status.just_finished);
    assert_eq!(played(&effects), Some((0, 1, "Banana".to_string())));
    assert_eq!(a.sync_player_status(&mut status).len(), 0);
    status.just_finished = true;
    assert_eq!(played(&a.sync_player_status(&mut status)), Some((0, 2, "Cherry".to_string())));
    status.just_finished = true;
    assert_eq!(a.sync_player_status(&mut status).len(), 0);
}

#[test]
fn a_request_carries_what_the_player_needs() {
    let mut a = app();
    keys(&mut a, "lj");
    match &key(&mut a, KeyCode::Enter)[..] {
        [Effect::Send(PlayerCommand::Play(r))] => {
            assert_eq!(r.path, "/Abba/Banana.mp3");
            assert_eq!(r.artist, "Abba");
            assert_eq!(r.title, "Banana");
            assert_eq!(r.duration, Duration { secs: 2, nanos: 0 });
            assert_eq!((r.artist_idx, r.song_idx), (0, 1));
        }
        other => panic!("{other:?}"),
    }
}

#[test]
fn a_new_choice_replaces_the_queue() {
    let mut a = app();
    key(&mut a, KeyCode::Enter);
    keys(&mut a, "lG");
    assert_eq!(played(&key(&mut a, KeyCode::Enter)), Some((0, 3, "Date".to_string())));
    let mut status = idle();
    status.just_finished = true;
    assert_eq!(a.sync_player_status(&mut status).len(), 0);
}

#[test]
fn browsing_keeps_the_queue() {
    let mut a = app();
    key(&mut a, KeyCode::Enter);
    keys(&mut a, "jlkhGg");
    let mut status = idle();
    status.just_finished = true;
    assert_eq!(played(&a.sync_player_status(&mut status)), Some((0, 1, "Banana".to_string())));
}

#[test]
fn player_errors_are_shown() {
    let mut a = app();
    let mut status = idle();
    status.error = Some("no sound".to_string());
    assert_eq!(a.sync_player_status(&mut status).len(), 0);
    assert!(status.error.is_none());
    assert_eq!(message(&a), ("no sound".to_string(), true));
}

#[test]
fn play_and_pause() {
    let mut a = app();
    assert_eq!(played(&a.handle_key(KeyCode::Char('c'), &idle())), Some((0, 0, "Apple".to_string())));
    let effects = a.handle_key(KeyCode::Char('c'), &loaded(0, 0));
    assert!(matches!(effects[..], [Effect::Send(PlayerCommand::TogglePause)]));
}

#[test]
fn restart_and_volume() {
    let mut a = app();
    assert!(matches!(key(&mut a, KeyCode::Char('x'))[..], [Effect::Send(PlayerCommand::Restart)]));
    assert!(matches!(key(&mut a, KeyCode::Up)[..], [Effect::Send(PlayerCommand::AdjustVolume(5))]));
    assert!(matches!(key(&mut a, KeyCode::Down)[..], [Effect::Send(PlayerCommand::AdjustVolume(-5))]));
    assert_eq!(VOLUME_STEP as f32 / 100.0, 0.05);
}

#[test]
fn previous_and_next_stay_with_the_artist_of_the_loaded_song() {
    let mut a = app();
    keys(&mut a, "j");
    assert_eq!(played(&a.handle_key(KeyCode::Char('v'), &loaded(0, 2))), Some((0, 3, "Date".to_string())));
    assert_eq!(played(&a.handle_key(KeyCode::Char('z'), &loaded(0, 1))), Some((0, 0, "Apple".to_string())));
    assert_eq!(a.handle_key(KeyCode::Char('v'), &loaded(0, 3)).len(), 0);
    assert_eq!(a.handle_key(KeyCode::Char('z'), &loaded(0, 0)).len(), 0);
    assert_eq!(a.handle_key(KeyCode::Char('v'), &idle()).len(), 0);
    assert_eq!(a.handle_key(KeyCode::Char('v'), &loaded(9, 0)).len(), 0);
    assert_eq!(a.selected_artist, 1);
}

#[test]
fn searching_selects_the_best_match_as_one_types() {
    let mut a = app();
    keys(&mut a, "/b");
    assert_eq!(a.mode, Mode::Search);
    assert_eq!(a.selected_artist, 1);
    keys(&mut a, "b");
    assert_eq!(a.selected_artist, 0);
    key(&mut a, KeyCode::Backspace);
    assert_eq!((a.search_input.as_str(), a.selected_artist), ("b", 1));
    key(&mut a, KeyCode::Enter);
    assert_eq!(a.mode, Mode::Normal);
    assert_eq!(message(&a), ("match 1/3 for \"b\"".to_string(), false));
    assert_eq!(a.selected_artist, 1);
}

#[test]
fn matches_are_cycled_and_wrap() {
    let mut a = app();
    keys(&mut a, "/b");
    key(&mut a, KeyCode::Enter);
    keys(&mut a, "ln");
    assert_eq!((a.focus, a.selected_artist), (Focus::Artists, 0));
    assert_eq!(message(&a), ("match 2/3 for \"b\"".to_string(), false));
    keys(&mut a, "n");
    assert_eq!(a.selected_artist, 2);
    keys(&mut a, "n");
    assert_eq!(a.selected_artist, 1);
    assert_eq!(message(&a), ("match 1/3 for \"b\"".to_string(), false));
    keys(&mut a, "N");
    assert_eq!(a.selected_artist, 2);
    assert_eq!(message(&a), ("match 3/3 for \"b\"".to_string(), false));
}

#[test]
fn songs_of_the_shown_artist_are_searched() {
    let mut a = app();
    keys(&mut a, "l/RR");
    assert_eq!((a.selected_artist, a.selected_song), (0, 2));
    key(&mut a, KeyCode::Backspace);
    key(&mut a, KeyCode::Backspace);
    keys(&mut a, "ae");
    assert_eq!(a.selected_song, 0);
    key(&mut a, KeyCode::Enter);
    assert_eq!(message(&a), ("match 1/2 for \"ae\"".to_string(), false));
    keys(&mut a, "n");
    assert_eq!(a.selected_song, 3);
}

#[test]
fn escape_cancels_a_search() {
    let mut a = app();
    keys(&mut a, "jl");
    keys(&mut a, "/egg");
    key(&mut a, KeyCode::Esc);
    assert_eq!((a.mode, a.focus, a.selected_artist, a.selected_song), (Mode::Normal, Focus::Songs, 1, 0));
    keys(&mut a, "h/cab");
    assert_eq!(a.selected_artist, 2);
    key(&mut a, KeyCode::Esc);
    assert_eq!((a.selected_artist, a.search_input.as_str()), (1, ""));
    keys(&mut a, "n");
    assert_eq!(a.selected_artist, 1);
    assert!(!a.should_quit);
}

#[test]
fn a_search_without_a_match_is_reported() {
    let mut a = app();
    keys(&mut a, "j/zzz");
    assert_eq!(a.selected_artist, 1);
    key(&mut a, KeyCode::Enter);
    assert_eq!(message(&a), ("no match: zzz".to_string(), true));
    keys(&mut a, "n");
    assert_eq!(a.selected_artist, 1);
}

#[test]
fn an_empty_search_says_nothing() {
    let mut a = app();
    keys(&mut a, "j/");
    key(&mut a, KeyCode::Enter);
    assert_eq!(message(&a), ("".to_string(), false));
    assert_eq!(a.selected_artist, 1);
}

#[test]
fn commands_are_typed_and_corrected() {
    let mut a = app();
    keys(&mut a, ":quix");
    key(&mut a, KeyCode::Backspace);
    key(&mut a, KeyCode::Other);
    assert_eq!(a.command_input, "qui");
    keys(&mut a, "t");
    assert!(!a.should_quit);
    assert_eq!(key(&mut a, KeyCode::Enter).len(), 0);
    assert!(a.should_quit);
    assert_eq!((a.mode, a.command_input.as_str()), (Mode::Normal, ""));
}

#[test]
fn escape_throws_a_command_away() {
    let mut a = app();
    keys(&mut a, ":quit");
    assert_eq!(key(&mut a, KeyCode::Esc).len(), 0);
    assert_eq!((a.mode, a.command_input.as_str(), a.should_quit), (Mode::Normal, "", false));
    assert!(!a.quit_prompted);
}

#[test]
fn add_asks_for_an_import() {
    let mut a = app();
    for text in ["add /my music ", "a /my music", "  add \t/my music"] {
        match &command(&mut a, text)[..] {
            [Effect::Import(path)] => assert_eq!(path, "/my music"),
            other => panic!("{other:?}"),
        }
    }
    assert_eq!(command(&mut a, "add").len(), 0);
    assert_eq!(message(&a), ("add requires a path argument".to_string(), true));
}

#[test]
fn other_words_are_no_commands() {
    let mut a = app();
    assert_eq!(command(&mut a, "ADD x").len(), 0);
    assert_eq!(message(&a), ("unknown command: ADD".to_string(), true));
    assert_eq!(command(&mut a, "   ").len(), 0);
    assert_eq!(message(&a), ("".to_string(), false));
    assert_eq!(command(&mut a, "quit now").len(), 0);
    assert!(a.should_quit);
}

#[test]
fn an_import_replaces_the_library() {
    let mut a = App::new(Ok(vec![]));
    a.import_finished("/m", ImportOutcome::Stored { count: 7, loaded: Ok(rows()) });
    assert_eq!(a.artist_rows().0, vec!["Abba", "Beck", "Cab"]);
    assert_eq!(message(&a), ("Imported 7 song(s) from /m".to_string(), false));
}

#[test]
fn a_failed_import_keeps_the_library() {
    let mut a = app();
    a.import_finished("/m", ImportOutcome::ScanFailed(LibraryError { message: "path does not exist: /m".to_string() }));
    assert_eq!(message(&a), ("path does not exist: /m".to_string(), true));
    a.import_finished("/m", ImportOutcome::StoreFailed(DbError { message: "full".to_string() }));
    assert_eq!(message(&a), ("full".to_string(), true));
    a.import_finished("/m", ImportOutcome::Stored { count: 1, loaded: Err(DbError { message: "gone".to_string() }) });
    assert_eq!(message(&a), ("gone".to_string(), true));
    assert_eq!(a.artist_rows().0.len(), 3);
}

#[test]
fn an_import_drops_the_matches() {
    let mut a = app();
    keys(&mut a, "/b");
    key(&mut a, KeyCode::Enter);
    a.import_finished("/m", ImportOutcome::Stored { count: 7, loaded: Ok(rows()) });
    keys(&mut a, "n");
    assert_eq!(a.selected_artist, 1);
    assert_eq!(message(&a), ("Imported 7 song(s) from /m".to_string(), false));
}

#[test]
fn clearing_stops_and_deletes() {
    let mut a = app();
    key(&mut a, KeyCode::Enter);
    keys(&mut a, "jlj");
    let effects = command(&mut a, "clear");
    assert!(matches!(effects[..], [Effect::Send(PlayerCommand::Stop), Effect::ClearDatabase]));
    assert_eq!((a.selected_artist, a.selected_song), (0, 0));
    a.clear_finished(Ok(vec![]));
    assert_eq!(message(&a), ("Library cleared.".to_string(), false));
    assert_eq!(a.artist_rows(), (vec![], None));
    let mut status = idle();
    status.just_finished = true;
    assert_eq!(a.sync_player_status(&mut status).len(), 0);
}

#[test]
fn a_failed_deletion_is_shown() {
    let mut a = app();
    command(&mut a, "clear");
    a.clear_finished(Err(DbError { message: "read-only".to_string() }));
    assert_eq!(message(&a), ("read-only".to_string(), true));
    assert_eq!(a.artist_rows().0.len(), 3);
}

#[test]
fn a_queued_song_that_is_gone_is_skipped() {
    let mut a = app();
    key(&mut a, KeyCode::Enter);
    a.import_finished("/m", ImportOutcome::Stored { count: 0, loaded: Ok(vec![]) });
    let mut status = idle();
    status.just_finished = true;
    assert_eq!(a.sync_player_status(&mut status).len(), 0);
    assert_eq!(message(&a), ("No song selected.".to_string(), false));
}

#[test]
fn escape_twice_quits() {
    let mut a = app();
    key(&mut a, KeyCode::Esc);
    assert_eq!(message(&a), ("Really quit? (esc again to quit)".to_string(), true));
    assert!(a.quit_prompted && !a.should_quit);
    key(&mut a, KeyCode::Esc);
    assert!(a.should_quit);
}

#[test]
fn another_key_withdraws_the_question() {
    let mut a = app();
    key(&mut a, KeyCode::Esc);
    keys(&mut a, "n");
    assert!(!a.quit_prompted);
    key(&mut a, KeyCode::Esc);
    assert!(!a.should_quit);
    keys(&mut a, "j");
    key(&mut a, KeyCode::Esc);
    assert!(!a.should_quit);
}

#[test]
fn the_song_pane_shows_the_selected_artist() {
    let mut a = app();
    keys(&mut a, "lj");
    assert!(a.can_show_songs(80));
    let (rows, selected) = a.song_rows(&loaded(0, 1), 80);
    assert_eq!(rows.len(), 6);
    assert_eq!(selected, Some(2));
    assert!(matches!(&rows[0], Row::Album(t) if t == "New (2000)"));
    assert!(matches!(&rows[2], Row::Song { is_playing: true, .. }));
    assert!(matches!(&rows[4], Row::Album(t) if t == "Old (1990)"));
    assert!(a.can_show_songs(20));
    let empty = App::new(Ok(vec![]));
    assert!(empty.can_show_songs(0));
    let (rows, selected) = empty.song_rows(&idle(), 0);
    assert_eq!((rows.len(), selected), (0, None));
}

#[test]
fn the_bottom_line_of_each_mode() {
    let mut a = app();
    let line = a.command_line();
    assert_eq!(line.text, "Press : to enter commands, / to search, d to delete, <esc> to quit.");
    assert_eq!((line.tone, line.cursor), (Tone::Hint, None));
    keys(&mut a, ":añ");
    let line = a.command_line();
    assert_eq!((line.text.as_str(), line.tone, line.cursor), (":añ", Tone::Plain, Some(4)));
    key(&mut a, KeyCode::Enter);
    let line = a.command_line();
    assert_eq!((line.text.as_str(), line.tone, line.cursor), ("unknown command: añ", Tone::Error, None));
    keys(&mut a, "/x");
    let line = a.command_line();
    assert_eq!((line.text.as_str(), line.tone, line.cursor), ("/x", Tone::Plain, Some(2)));
    key(&mut a, KeyCode::Esc);
    keys(&mut a, "j");
    let line = a.command_line();
    assert_eq!((line.text.as_str(), line.tone, line.cursor), ("", Tone::Plain, None));
}

#[test]
fn the_queue_advances_after_a_finished_track_but_not_after_a_stopped_one() {
    let ended = DeviceReport {
        volume: 1.0f32.to_bits(),
        position: Duration { secs: 0, nanos: 0 },
        is_paused: false,
        is_empty: true,
    };
    let mut a = app();
    key(&mut a, KeyCode::Enter);
    let mut status = loaded(0, 0);
    status.handle_stop();
    status.refresh_status(ended);
    assert_eq!(a.sync_player_status(&mut status).len(), 0);
    let mut status = loaded(0, 0);
    status.refresh_status(ended);
    assert_eq!(played(&a.sync_player_status(&mut status)), Some((0, 1, "Banana".to_string())));
    status.refresh_status(ended);
    assert_eq!(a.sync_player_status(&mut status).len(), 0);
}
