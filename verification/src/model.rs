//! A model of the state behind the screen: what each key, each report of the player and each answer
//! from disk makes of it.

use vstd::prelude::*;

use crate::app::{Focus, KeyCode, Mode, VOLUME_STEP};
use crate::db::{entries_of, StoredSongView};
use crate::library::{is_library_of, library_is_no_longer, same_album, ArtistView, SongView};
use crate::player::{CommandView, NowPlayingView, TrackView};
use crate::search::{kinds_of, matches_are_ranked, matches_fit, matches_in};
use crate::text::{after_word, decimal, first_word, trimmed};

verus! {

/// What a status message holds.
pub struct MessageView {
    pub text: Seq<char>,
    pub is_error: bool,
}

/// What an effect holds.
pub enum EffectView {
    Send(CommandView),
    Import(Seq<char>),
    ClearDatabase,
}

/// What the state of a search holds.
pub struct SearchView {
    pub matches: Seq<usize>,
    pub match_pos: usize,
    pub focus: Focus,
    pub origin: (usize, usize),
}

/// The state of an [`App`].
#[verifier::ext_equal]
pub struct AppView {
    pub artists: Seq<ArtistView>,
    pub focus: Focus,
    pub mode: Mode,
    pub selected_artist: usize,
    pub selected_song: usize,
    pub command_input: Seq<char>,
    pub search_input: Seq<char>,
    pub search_matches: Seq<usize>,
    pub search_match_pos: usize,
    pub search_focus: Focus,
    pub search_origin: (usize, usize),
    pub status_message: Option<MessageView>,
    pub quit_prompted: bool,
    pub should_quit: bool,
    pub queue: Seq<(usize, usize)>,
}

/// An index as a signed number of the same bits.
pub open spec fn as_signed(n: usize) -> int {
    if n <= isize::MAX {
        n as int
    } else {
        n - usize::MAX - 1
    }
}

/// Where an index ends up when it moves by `delta` in a list of `len` items.
pub open spec fn clamped(current: usize, delta: int, len: nat) -> usize {
    let moved = as_signed(current) + delta;
    if len == 0 || moved < 0 {
        0
    } else if moved >= len {
        (len - 1) as usize
    } else {
        moved as usize
    }
}

/// Whether an index can move one step either way without leaving the signed range.
pub open spec fn steppable(n: usize) -> bool {
    isize::MIN < as_signed(n) < isize::MAX
}

/// Whether an index can move by `delta` without leaving the signed range.
pub open spec fn can_move(n: usize, delta: int) -> bool {
    isize::MIN <= as_signed(n) + delta <= isize::MAX
}

/// Lists are no longer than memory allows.
pub open spec fn lists_fit(s: AppView) -> bool {
    &&& s.artists.len() <= isize::MAX
    &&& forall|i: int|
        0 <= i < s.artists.len() ==> (#[trigger] s.artists[i]).songs.len() <= isize::MAX
}

/// What holds of every state: lists are no longer than memory allows, every index can move by one,
/// and the current match is one of the matches.
pub open spec fn wf(s: AppView) -> bool {
    &&& lists_fit(s)
    &&& steppable(s.selected_artist)
    &&& steppable(s.selected_song)
    &&& steppable(s.search_origin.0)
    &&& steppable(s.search_origin.1)
    &&& s.search_matches.len() <= isize::MAX
    &&& s.search_matches.len() > 0 ==> s.search_match_pos < s.search_matches.len()
    &&& forall|i: int|
        0 <= i < s.search_matches.len() ==> steppable(#[trigger] s.search_matches[i])
}

/// The state with an error shown.
pub open spec fn with_error(s: AppView, text: Seq<char>) -> AppView {
    AppView { status_message: Some(MessageView { text, is_error: true }), ..s }
}

/// The state with a plain message shown.
pub open spec fn with_info(s: AppView, text: Seq<char>) -> AppView {
    AppView { status_message: Some(MessageView { text, is_error: false }), ..s }
}

/// The songs of the selected artist; none if no such artist is listed.
pub open spec fn shown_songs(s: AppView) -> Seq<SongView> {
    if s.selected_artist < s.artists.len() {
        s.artists[s.selected_artist as int].songs
    } else {
        Seq::empty()
    }
}

/// Whether the cursor in the pane that has the focus can move by `delta`. In an empty list it does
/// not move at all.
pub open spec fn cursor_can_move(s: AppView, delta: int) -> bool {
    match s.focus {
        Focus::Artists => s.artists.len() > 0 ==> can_move(s.selected_artist, delta),
        Focus::Songs => shown_songs(s).len() > 0 ==> can_move(s.selected_song, delta),
    }
}

/// Moves the cursor in the pane that has the focus. Another artist is shown from its first song.
pub open spec fn moved(s: AppView, delta: int) -> AppView {
    match s.focus {
        Focus::Artists => if s.artists.len() == 0 {
            s
        } else {
            AppView {
                selected_artist: clamped(s.selected_artist, delta, s.artists.len()),
                selected_song: 0,
                ..s
            }
        },
        Focus::Songs => if shown_songs(s).len() == 0 {
            s
        } else {
            AppView { selected_song: clamped(s.selected_song, delta, shown_songs(s).len()), ..s }
        },
    }
}

/// Puts the cursor on the first item of the pane that has the focus.
pub open spec fn moved_to_start(s: AppView) -> AppView {
    match s.focus {
        Focus::Artists => if s.artists.len() == 0 {
            s
        } else {
            AppView { selected_artist: 0, selected_song: 0, ..s }
        },
        Focus::Songs => AppView { selected_song: 0, ..s },
    }
}

/// Puts the cursor on the last item of the pane that has the focus.
pub open spec fn moved_to_end(s: AppView) -> AppView {
    match s.focus {
        Focus::Artists => if s.artists.len() == 0 {
            s
        } else {
            AppView { selected_artist: (s.artists.len() - 1) as usize, selected_song: 0, ..s }
        },
        Focus::Songs => if shown_songs(s).len() == 0 {
            s
        } else {
            AppView { selected_song: (shown_songs(s).len() - 1) as usize, ..s }
        },
    }
}

/// The first position from `from` on that holds no song of the album of song `k`.
pub open spec fn album_end(songs: Seq<SongView>, k: int, from: int) -> int
    decreases songs.len() - from,
{
    if 0 <= from < songs.len() && same_album(songs[k], songs[from]) {
        album_end(songs, k, from + 1)
    } else {
        from
    }
}

/// The places in the library of the songs that follow song `k` on its album.
pub open spec fn rest_of_album(songs: Seq<SongView>, artist_idx: usize, k: int) -> Seq<
    (usize, usize),
> {
    Seq::new(
        (album_end(songs, k, k + 1) - (k + 1)) as nat,
        |i: int| (artist_idx, (k + 1 + i) as usize),
    )
}

/// What the player is told of a song in the library.
pub open spec fn track_at(
    artists: Seq<ArtistView>,
    artist_idx: usize,
    song_idx: usize,
) -> TrackView {
    let artist = artists[artist_idx as int];
    let song = artist.songs[song_idx as int];
    TrackView {
        path: song.path,
        artist: artist.name,
        title: song.title,
        duration: song.duration,
        artist_idx,
        song_idx,
    }
}

/// Whether there is such a song.
pub open spec fn has_song(artists: Seq<ArtistView>, artist_idx: usize, song_idx: usize) -> bool {
    artist_idx < artists.len() && song_idx < artists[artist_idx as int].songs.len()
}

/// Plays a song and queues the rest of its album in place of whatever was queued.
pub open spec fn play_track(s: AppView, artist_idx: usize, song_idx: usize) -> (
    AppView,
    Seq<EffectView>,
) {
    if has_song(s.artists, artist_idx, song_idx) {
        (
            AppView {
                queue: rest_of_album(
                    s.artists[artist_idx as int].songs,
                    artist_idx,
                    song_idx as int,
                ),
                ..s
            },
            seq![EffectView::Send(CommandView::Play(track_at(s.artists, artist_idx, song_idx)))],
        )
    } else {
        (with_info(s, "No song selected."@), Seq::empty())
    }
}

/// Plays what is under the cursor; an artist is played from the first song.
pub open spec fn play_selected(s: AppView) -> (AppView, Seq<EffectView>) {
    match s.focus {
        Focus::Songs => play_track(s, s.selected_artist, s.selected_song),
        Focus::Artists => play_track(s, s.selected_artist, 0),
    }
}

/// Pauses or resumes what is loaded, or plays what is under the cursor if nothing is.
pub open spec fn toggle_play_pause(s: AppView, now: Option<NowPlayingView>) -> (
    AppView,
    Seq<EffectView>,
) {
    if now is Some {
        (s, seq![EffectView::Send(CommandView::TogglePause)])
    } else {
        play_selected(s)
    }
}

/// Whether the place of the loaded song, if its artist is listed with any songs, can move by
/// `delta`.
pub open spec fn loaded_can_move(s: AppView, now: Option<NowPlayingView>, delta: int) -> bool {
    match now {
        Some(n) => n.artist_idx < s.artists.len() && s.artists[n.artist_idx as int].songs.len() > 0
            ==> can_move(n.song_idx, delta),
        None => true,
    }
}

/// Plays the neighbour of the loaded song among its artist's songs; nothing happens at either end.
pub open spec fn play_relative(s: AppView, now: Option<NowPlayingView>, delta: int) -> (
    AppView,
    Seq<EffectView>,
) {
    match now {
        None => (s, Seq::empty()),
        Some(n) => if n.artist_idx < s.artists.len() && s.artists[n.artist_idx as int].songs.len()
            > 0 {
            let target = clamped(
                n.song_idx,
                delta,
                s.artists[n.artist_idx as int].songs.len(),
            );
            if target == n.song_idx {
                (s, Seq::empty())
            } else {
                play_track(s, n.artist_idx, target)
            }
        } else {
            (s, Seq::empty())
        },
    }
}

/// Plays the first queued song, if there is one.
pub open spec fn play_next_in_queue(s: AppView) -> (AppView, Seq<EffectView>) {
    if s.queue.len() == 0 {
        (s, Seq::empty())
    } else {
        play_track(
            AppView { queue: s.queue.skip(1), ..s },
            s.queue[0].0,
            s.queue[0].1,
        )
    }
}

/// The names listed in a pane.
pub open spec fn names_in(s: AppView, focus: Focus) -> Seq<Seq<char>> {
    match focus {
        Focus::Artists => s.artists.map_values(|a: ArtistView| a.name),
        Focus::Songs => shown_songs(s).map_values(|x: SongView| x.title),
    }
}

/// The state as a search over the focused pane begins.
pub open spec fn search_started(s: AppView) -> AppView {
    AppView {
        search_input: Seq::empty(),
        search_matches: Seq::empty(),
        search_match_pos: 0,
        search_focus: s.focus,
        search_origin: (s.selected_artist, s.selected_song),
        mode: Mode::Search,
        ..s
    }
}

/// The state as a search is given up: the selection is back where it was.
pub open spec fn search_cancelled(s: AppView) -> AppView {
    AppView {
        selected_artist: s.search_origin.0,
        selected_song: s.search_origin.1,
        search_input: Seq::empty(),
        search_matches: Seq::empty(),
        mode: Mode::Normal,
        ..s
    }
}

/// Selects an item of the pane that is searched.
pub open spec fn search_selected(s: AppView, idx: usize) -> AppView {
    match s.search_focus {
        Focus::Artists => AppView { selected_artist: idx, selected_song: 0, ..s },
        Focus::Songs => AppView { selected_song: idx, ..s },
    }
}

/// The line that tells which match is selected, or that there is none.
pub open spec fn search_reported(s: AppView) -> AppView {
    if s.search_matches.len() == 0 {
        with_error(s, "no match: "@ + s.search_input)
    } else {
        with_info(
            s,
            "match "@ + decimal((s.search_match_pos + 1) as nat) + "/"@ + decimal(
                s.search_matches.len(),
            ) + " for \""@ + s.search_input + "\""@,
        )
    }
}

/// The state after the search text became `input`: the best match, if there is one, is selected.
pub open spec fn search_typed(s: AppView, input: Seq<char>) -> AppView {
    let found = AppView {
        search_input: input,
        search_matches: matches_in(input, names_in(s, s.search_focus)),
        search_match_pos: 0,
        ..s
    };
    if found.search_matches.len() == 0 {
        found
    } else {
        search_selected(found, found.search_matches[0])
    }
}

/// Leaves search mode; the matches stay, and the line tells of them unless nothing was typed.
pub open spec fn search_finished(s: AppView) -> AppView {
    let left = AppView { mode: Mode::Normal, ..s };
    if s.search_input.len() == 0 {
        left
    } else {
        search_reported(left)
    }
}

/// Goes `delta` matches on, wrapping around, and puts the focus on the pane that was searched.
pub open spec fn search_jumped(s: AppView, delta: int) -> AppView {
    if s.search_matches.len() == 0 {
        s
    } else {
        let pos = (s.search_match_pos + delta) % (s.search_matches.len() as int);
        search_reported(
            search_selected(
                AppView { search_match_pos: pos as usize, focus: s.search_focus, ..s },
                s.search_matches[pos],
            ),
        )
    }
}

/// A text without its last character.
pub open spec fn shortened(text: Seq<char>) -> Seq<char> {
    if text.len() == 0 {
        text
    } else {
        text.drop_last()
    }
}

/// Carries out the command that was typed.
pub open spec fn command_executed(s: AppView) -> (AppView, Seq<EffectView>) {
    let input = trimmed(s.command_input);
    let left = AppView { command_input: Seq::empty(), mode: Mode::Normal, ..s };
    let word = first_word(input);
    let rest = after_word(input);
    if input.len() == 0 {
        (left, Seq::empty())
    } else if word == "add"@ || word == "a"@ {
        if rest.len() == 0 {
            (with_error(left, "add requires a path argument"@), Seq::empty())
        } else {
            (left, seq![EffectView::Import(rest)])
        }
    } else if word == "clear"@ {
        (
            AppView { queue: Seq::empty(), selected_artist: 0, selected_song: 0, ..left },
            seq![EffectView::Send(CommandView::Stop), EffectView::ClearDatabase],
        )
    } else if word == "quit"@ {
        (AppView { should_quit: true, ..left }, Seq::empty())
    } else {
        (with_error(left, "unknown command: "@ + word), Seq::empty())
    }
}

/// What a key does while a command is typed.
pub open spec fn command_key(s: AppView, key: KeyCode) -> (AppView, Seq<EffectView>) {
    match key {
        KeyCode::Enter => command_executed(s),
        KeyCode::Esc => (
            AppView { command_input: Seq::empty(), mode: Mode::Normal, ..s },
            Seq::empty(),
        ),
        KeyCode::Backspace => (
            AppView { command_input: shortened(s.command_input), ..s },
            Seq::empty(),
        ),
        KeyCode::Char(c) => (AppView { command_input: s.command_input.push(c), ..s }, Seq::empty()),
        _ => (s, Seq::empty()),
    }
}

/// What a key does while a search is typed.
pub open spec fn search_key(s: AppView, key: KeyCode) -> AppView {
    match key {
        KeyCode::Enter => search_finished(s),
        KeyCode::Esc => search_cancelled(s),
        KeyCode::Backspace => search_typed(s, shortened(s.search_input)),
        KeyCode::Char(c) => search_typed(s, s.search_input.push(c)),
        _ => s,
    }
}

/// What `Esc` does while browsing: it clears a command that was left, then asks whether to quit,
/// then quits.
pub open spec fn escape_pressed(s: AppView) -> AppView {
    if s.command_input.len() > 0 {
        AppView { command_input: Seq::empty(), ..s }
    } else if s.quit_prompted {
        AppView { should_quit: true, ..s }
    } else {
        AppView {
            quit_prompted: true,
            ..with_error(s, "Really quit? (esc again to quit)"@)
        }
    }
}

/// What any other key does while browsing, before the line at the bottom is cleared.
pub open spec fn browse_key(s: AppView, key: KeyCode, now: Option<NowPlayingView>) -> (
    AppView,
    Seq<EffectView>,
) {
    match key {
        KeyCode::Char('j') => (moved(s, 1), Seq::empty()),
        KeyCode::Char('k') => (moved(s, -1), Seq::empty()),
        KeyCode::Char('g') | KeyCode::Home => (moved_to_start(s), Seq::empty()),
        KeyCode::Char('G') | KeyCode::End => (moved_to_end(s), Seq::empty()),
        KeyCode::Char('h') => (AppView { focus: Focus::Artists, ..s }, Seq::empty()),
        KeyCode::Char('l') => (AppView { focus: Focus::Songs, ..s }, Seq::empty()),
        KeyCode::Char('z') => play_relative(s, now, -1),
        KeyCode::Char('x') => (s, seq![EffectView::Send(CommandView::Restart)]),
        KeyCode::Char('c') => toggle_play_pause(s, now),
        KeyCode::Char('v') => play_relative(s, now, 1),
        KeyCode::Up => (s, seq![EffectView::Send(CommandView::AdjustVolume(VOLUME_STEP))]),
        KeyCode::Down => (
            s,
            seq![EffectView::Send(CommandView::AdjustVolume((-VOLUME_STEP) as i32))],
        ),
        KeyCode::Enter => play_selected(s),
        KeyCode::Char(':') => (
            AppView { command_input: Seq::empty(), mode: Mode::Command, ..s },
            Seq::empty(),
        ),
        KeyCode::Char('/') => (search_started(s), Seq::empty()),
        KeyCode::Char('n') => (search_jumped(s, 1), Seq::empty()),
        KeyCode::Char('N') => (search_jumped(s, -1), Seq::empty()),
        _ => (s, Seq::empty()),
    }
}

/// What a key does while browsing. Any key but `Esc` takes back the question whether to quit, and
/// any but `Esc`, `n` and `N` clears the line at the bottom.
pub open spec fn normal_key(s: AppView, key: KeyCode, now: Option<NowPlayingView>) -> (
    AppView,
    Seq<EffectView>,
) {
    if key is Esc {
        (escape_pressed(s), Seq::empty())
    } else {
        let (t, effects) = browse_key(s, key, now);
        let u = AppView { quit_prompted: false, ..t };
        if key == KeyCode::Char('n') || key == KeyCode::Char('N') {
            (u, effects)
        } else {
            (with_info(u, ""@), effects)
        }
    }
}

/// What a key does, given the song that is loaded in the player.
pub open spec fn key_pressed(s: AppView, key: KeyCode, now: Option<NowPlayingView>) -> (
    AppView,
    Seq<EffectView>,
) {
    match s.mode {
        Mode::Command => command_key(s, key),
        Mode::Search => (search_key(s, key), Seq::empty()),
        Mode::Normal => normal_key(s, key, now),
    }
}

/// What a report of the player does: its error is shown, and at the end of a track the next queued
/// song is played.
pub open spec fn player_synced(s: AppView, error: Option<Seq<char>>, finished: bool) -> (
    AppView,
    Seq<EffectView>,
) {
    let t = match error {
        Some(text) => with_error(s, text),
        None => s,
    };
    if finished {
        play_next_in_queue(t)
    } else {
        (t, Seq::empty())
    }
}

/// The state after the library was loaded anew. Matches of an earlier search are dropped, since
/// they may no longer point at the same items.
pub open spec fn reloaded(s: AppView, artists: Seq<ArtistView>) -> AppView {
    AppView { artists, search_matches: Seq::empty(), ..s }
}

/// One step around a circle of `len` places.
pub(crate) proof fn lemma_wrap(pos: int, delta: int, len: int)
    requires
        0 <= pos < len,
        -1 <= delta <= 1,
    ensures
        (pos + delta) % len == (if pos + delta == len {
            0
        } else if pos + delta < 0 {
            len - 1
        } else {
            pos + delta
        }),
{
    if pos + delta == len {
        vstd::arithmetic::div_mod::lemma_mod_self_0(len);
    } else if pos + delta < 0 {
        vstd::arithmetic::div_mod::lemma_mod_add_multiples_vanish(-1, len);
        vstd::arithmetic::div_mod::lemma_small_mod((len - 1) as nat, len as nat);
    } else {
        vstd::arithmetic::div_mod::lemma_small_mod((pos + delta) as nat, len as nat);
    }
}

/// The state before anything was loaded or typed.
pub open spec fn initial() -> AppView {
    AppView {
        artists: Seq::empty(),
        focus: Focus::Artists,
        mode: Mode::Normal,
        selected_artist: 0,
        selected_song: 0,
        command_input: Seq::empty(),
        search_input: Seq::empty(),
        search_matches: Seq::empty(),
        search_match_pos: 0,
        search_focus: Focus::Artists,
        search_origin: (0, 0),
        status_message: None,
        quit_prompted: false,
        should_quit: false,
        queue: Seq::empty(),
    }
}

/// Whether `t` is `s` with the library that the stored rows describe.
pub open spec fn reloaded_from(s: AppView, rows: Seq<StoredSongView>, t: AppView) -> bool {
    &&& is_library_of(t.artists, entries_of(rows))
    &&& t == reloaded(s, t.artists)
}

/// Whether a key that plays the neighbour of the loaded song can do so.
pub open spec fn key_can_move(s: AppView, key: KeyCode, now: Option<NowPlayingView>) -> bool {
    s.mode is Normal ==> {
        &&& key == KeyCode::Char('z') ==> loaded_can_move(s, now, -1)
        &&& key == KeyCode::Char('v') ==> loaded_can_move(s, now, 1)
    }
}

/// Every position found by a search lies in the list that was searched, so a cursor put there can
/// move by one.
proof fn lemma_matches_steppable(query: Seq<char>, names: Seq<Seq<char>>)
    requires
        names.len() <= isize::MAX,
    ensures
        matches_in(query, names).len() <= isize::MAX,
        forall|i: int|
            0 <= i < matches_in(query, names).len() ==> steppable(
                #[trigger] matches_in(query, names)[i],
            ),
{
    let kinds = kinds_of(query, names);
    matches_fit(kinds);
    matches_are_ranked(kinds);
}

/// Typing a search text does not leave the state malformed.
proof fn lemma_typed_keeps_wf(s: AppView, input: Seq<char>)
    requires
        wf(s),
    ensures
        wf(search_typed(s, input)),
{
    lemma_matches_steppable(input, names_in(s, s.search_focus));
}

/// Going to another match does not leave the state malformed.
proof fn lemma_jumped_keeps_wf(s: AppView, delta: int)
    requires
        wf(s),
        -1 <= delta <= 1,
    ensures
        wf(search_jumped(s, delta)),
{
    if s.search_matches.len() > 0 {
        lemma_wrap(s.search_match_pos as int, delta, s.search_matches.len() as int);
    }
}

/// Browsing does not leave the state malformed.
proof fn lemma_browsing_keeps_wf(s: AppView, key: KeyCode, now: Option<NowPlayingView>)
    requires
        wf(s),
    ensures
        wf(browse_key(s, key, now).0),
{
    lemma_jumped_keeps_wf(s, 1);
    lemma_jumped_keeps_wf(s, -1);
    assert(wf(moved(s, 1)));
    assert(wf(moved(s, -1)));
    assert(wf(moved_to_end(s)));
    assert(wf(play_relative(s, now, 1).0));
    assert(wf(play_relative(s, now, -1).0));
    assert(wf(play_selected(s).0));
}

/// No key leaves the state malformed.
pub proof fn keys_keep_wf(s: AppView, key: KeyCode, now: Option<NowPlayingView>)
    requires
        wf(s),
    ensures
        wf(key_pressed(s, key, now).0),
{
    match s.mode {
        Mode::Command => {
            assert(wf(command_executed(s).0));
        },
        Mode::Search => {
            lemma_typed_keeps_wf(s, shortened(s.search_input));
            if let KeyCode::Char(c) = key {
                lemma_typed_keeps_wf(s, s.search_input.push(c));
            }
        },
        Mode::Normal => {
            lemma_browsing_keeps_wf(s, key, now);
        },
    }
}

/// No report of the player leaves the state malformed.
pub proof fn reports_keep_wf(s: AppView, error: Option<Seq<char>>, finished: bool)
    requires
        wf(s),
    ensures
        wf(player_synced(s, error, finished).0),
{
}

/// Loading the library anew does not leave the state malformed.
pub proof fn reloading_keeps_wf(s: AppView, rows: Seq<StoredSongView>, t: AppView)
    requires
        wf(s),
        reloaded_from(s, rows, t),
        rows.len() <= isize::MAX,
    ensures
        wf(t),
{
    library_is_no_longer(t.artists, entries_of(rows));
}

/// An index moves by as much as it is told to, and stops at either end of the list. In an empty list
/// it is zero.
pub proof fn clamping_stops_at_the_ends(current: usize, delta: int, len: nat)
    requires
        len <= usize::MAX,
    ensures
        len == 0 ==> clamped(current, delta, len) == 0,
        len > 0 && current <= isize::MAX ==> clamped(current, delta, len) == (if current + delta
            < 0 {
            0
        } else if current + delta > len - 1 {
            len - 1
        } else {
            current + delta
        }),
        len > 0 && current > isize::MAX ==> clamped(current, delta, len) == (if current - usize::MAX
            - 1 + delta < 0 {
            0
        } else if current - usize::MAX - 1 + delta > len - 1 {
            len - 1
        } else {
            current - usize::MAX - 1 + delta
        }),
{
}

} // verus!
