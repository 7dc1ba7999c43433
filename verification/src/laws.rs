//! What can be relied on across several keys and reports.

use vstd::prelude::*;

use crate::app::{Focus, KeyCode, Mode};
use crate::db::StoredSongView;
use crate::library::{albums_are_contiguous, same_album, Song, SongView};
use crate::model::{
    album_end, as_signed, command_executed, has_song, key_pressed, lemma_wrap, lists_fit, moved,
    moved_to_end, moved_to_start, names_in, play_next_in_queue, play_relative, play_track,
    player_synced, reloaded_from, rest_of_album, search_jumped, search_typed, shown_songs,
    track_at, wf, AppView, EffectView,
};
use crate::order::{order_of, sorted};
use crate::player::{
    played, refreshed, stopped, CommandView, DeviceReport, NowPlayingView, Opened, StatusView,
    TrackView,
};
use crate::search::{kinds_of, matches_are_ranked, matches_in, rank};
use crate::text::{after_word, first_word, trimmed};

verus! {

/// The state after some keys were pressed while nothing changes in the player.
pub open spec fn after_keys(s: AppView, keys: Seq<KeyCode>, now: Option<NowPlayingView>) -> AppView
    decreases keys.len(),
{
    if keys.len() == 0 {
        s
    } else {
        key_pressed(after_keys(s, keys.drop_last(), now), keys.last(), now).0
    }
}

/// No key is one that ends a search.
pub open spec fn keeps_searching(keys: Seq<KeyCode>) -> bool {
    forall|i: int|
        0 <= i < keys.len() ==> !((#[trigger] keys[i]) is Esc) && !(keys[i] is Enter)
}

/// What a search never touches.
pub open spec fn search_leaves(s: AppView, t: AppView) -> bool {
    &&& t.artists == s.artists
    &&& t.queue == s.queue
    &&& t.focus == s.focus
    &&& t.command_input == s.command_input
    &&& t.quit_prompted == s.quit_prompted
    &&& t.should_quit == s.should_quit
}

/// Typing goes on searching, from the same place in the same pane.
proof fn lemma_typing(s: AppView, keys: Seq<KeyCode>, now: Option<NowPlayingView>)
    requires
        s.mode is Search,
        keeps_searching(keys),
    ensures
        after_keys(s, keys, now).mode is Search,
        after_keys(s, keys, now).search_focus == s.search_focus,
        after_keys(s, keys, now).search_origin == s.search_origin,
        after_keys(s, keys, now).status_message == s.status_message,
        search_leaves(s, after_keys(s, keys, now)),
    decreases keys.len(),
{
    if keys.len() > 0 {
        assert(keeps_searching(keys.drop_last())) by {
            assert forall|i: int| 0 <= i < keys.drop_last().len() implies !(
            (#[trigger] keys.drop_last()[i]) is Esc) && !(keys.drop_last()[i] is Enter) by {
                assert(keys.drop_last()[i] == keys[i]);
            }
        }
        lemma_typing(s, keys.drop_last(), now);
        assert(keys.last() == keys[keys.len() - 1]);
    }
}

/// `Esc` cancels a search and restores the previous selection, whatever was typed. The library, the
/// queue and the focus are as they were, too, and no match is left to go to.
pub proof fn cancelled_search_restores_selection(
    s: AppView,
    keys: Seq<KeyCode>,
    now: Option<NowPlayingView>,
)
    requires
        s.mode is Normal,
        keeps_searching(keys),
    ensures
        ({
            let begun = key_pressed(s, KeyCode::Char('/'), now).0;
            let left = key_pressed(after_keys(begun, keys, now), KeyCode::Esc, now).0;
            &&& left.selected_artist == s.selected_artist
            &&& left.selected_song == s.selected_song
            &&& left.mode is Normal
            &&& left.search_input.len() == 0
            &&& left.search_matches.len() == 0
            &&& search_jumped(left, 1) == left
            &&& search_jumped(left, -1) == left
            &&& search_leaves(AppView { quit_prompted: false, ..s }, left)
        }),
{
    let begun = key_pressed(s, KeyCode::Char('/'), now).0;
    lemma_typing(begun, keys, now);
}

/// `Enter` ends a search and keeps the selection and the matches.
pub proof fn finished_search_keeps_selection(s: AppView, now: Option<NowPlayingView>)
    requires
        s.mode is Search,
    ensures
        ({
            let t = key_pressed(s, KeyCode::Enter, now).0;
            t == (AppView { mode: Mode::Normal, status_message: t.status_message, ..s })
        }),
{
}

/// While a search is typed nothing is sent to the player, stored or deleted, and the library, the
/// queue and the focus stay as they are.
pub proof fn searching_has_no_effect(s: AppView, key: KeyCode, now: Option<NowPlayingView>)
    requires
        s.mode is Search,
    ensures
        key_pressed(s, key, now).1.len() == 0,
        search_leaves(s, key_pressed(s, key, now).0),
{
}

/// As a search is typed the selection jumps to the best match: no other item of the searched pane
/// matches better, and none before it matches as well. Without a match the selection stays.
pub proof fn typing_selects_the_best_match(s: AppView, input: Seq<char>, other: usize)
    requires
        wf(s),
        input.len() > 0,
    ensures
        ({
            let names = names_in(s, s.search_focus);
            let kinds = kinds_of(input, names);
            let t = search_typed(s, input);
            let selected = match s.search_focus {
                Focus::Artists => t.selected_artist,
                Focus::Songs => t.selected_song,
            };
            if t.search_matches.len() == 0 {
                &&& t.selected_artist == s.selected_artist
                &&& t.selected_song == s.selected_song
                &&& other < names.len() ==> kinds[other as int] is None
            } else {
                &&& selected < names.len()
                &&& kinds[selected as int] is Some
                &&& other < names.len() && other != selected && kinds[other as int] is Some ==> {
                    let (best, rival) = (
                        rank(kinds[selected as int]->0),
                        rank(kinds[other as int]->0),
                    );
                    best < rival || (best == rival && selected < other)
                }
            }
        }),
{
    let names = names_in(s, s.search_focus);
    let kinds = kinds_of(input, names);
    let matches = matches_in(input, names);
    matches_are_ranked(kinds);
    if other < names.len() && kinds[other as int] is Some {
        let i = choose|i: int| 0 <= i < matches.len() && matches[i] == other;
        if i > 0 {
            let (a, b) = (matches[0], matches[i]);
            assert(rank(kinds[a as int]->0) <= rank(kinds[b as int]->0));
        }
    }
}

/// `n` and `N` undo each other: after both the same match is current, and it is selected.
pub proof fn next_and_previous_match_undo(s: AppView)
    requires
        wf(s),
        s.search_matches.len() > 0,
    ensures
        ({
            let current = s.search_matches[s.search_match_pos as int];
            let there = search_jumped(search_jumped(s, 1), -1);
            let back = search_jumped(search_jumped(s, -1), 1);
            &&& there.search_match_pos == s.search_match_pos
            &&& back.search_match_pos == s.search_match_pos
            &&& (s.search_focus is Artists ==> there.selected_artist == current
                && back.selected_artist == current)
            &&& (s.search_focus is Songs ==> there.selected_song == current && back.selected_song
                == current)
        }),
{
    let len = s.search_matches.len() as int;
    let pos = s.search_match_pos as int;
    lemma_wrap(pos, 1, len);
    lemma_wrap(pos, -1, len);
    lemma_wrap((pos + 1) % len, -1, len);
    lemma_wrap((pos - 1) % len, 1, len);
}

/// The state after going to the next match so many times.
pub open spec fn next_matches(s: AppView, times: nat) -> AppView
    decreases times,
{
    if times == 0 {
        s
    } else {
        search_jumped(next_matches(s, (times - 1) as nat), 1)
    }
}

/// `n` visits the matches in order and wraps around: after as many presses as there are matches the
/// first one is current again.
pub proof fn matches_wrap_around(s: AppView, times: nat)
    requires
        wf(s),
        s.search_matches.len() > 0,
    ensures
        next_matches(s, times).search_matches == s.search_matches,
        next_matches(s, times).search_match_pos == (s.search_match_pos + times)
            % s.search_matches.len() as int,
        times == s.search_matches.len() ==> next_matches(s, times).search_match_pos
            == s.search_match_pos,
    decreases times,
{
    let len = s.search_matches.len() as int;
    let pos = s.search_match_pos as int;
    vstd::arithmetic::div_mod::lemma_small_mod(pos as nat, len as nat);
    if times > 0 {
        matches_wrap_around(s, (times - 1) as nat);
        vstd::arithmetic::div_mod::lemma_mod_pos_bound(pos + times, len);
        vstd::arithmetic::div_mod::lemma_add_mod_noop(pos + times - 1, 1, len);
        vstd::arithmetic::div_mod::lemma_add_mod_noop((pos + times - 1) % len, 1, len);
        vstd::arithmetic::div_mod::lemma_mod_twice(pos + times - 1, len);
    }
    if times == len {
        vstd::arithmetic::div_mod::lemma_mod_add_multiples_vanish(pos, len);
    }
}

/// `n` and `N` put the focus on the pane that was searched.
pub proof fn jumping_focuses_the_searched_pane(s: AppView, delta: int)
    requires
        s.search_matches.len() > 0,
    ensures
        search_jumped(s, delta).focus == s.search_focus,
{
}

/// After the library was loaded anew there is no match to go to.
pub proof fn reloading_drops_matches(s: AppView, rows: Seq<StoredSongView>, t: AppView, delta: int)
    requires
        reloaded_from(s, rows, t),
    ensures
        search_jumped(t, delta) == t,
{
}

/// Keys that only move the cursor or the focus.
pub open spec fn only_browses(key: KeyCode) -> bool {
    ||| key is Home
    ||| key is End
    ||| key == KeyCode::Char('j')
    ||| key == KeyCode::Char('k')
    ||| key == KeyCode::Char('g')
    ||| key == KeyCode::Char('G')
    ||| key == KeyCode::Char('h')
    ||| key == KeyCode::Char('l')
}

/// Browsing does not affect what is playing or what plays next.
pub proof fn browsing_has_no_effect(s: AppView, key: KeyCode, now: Option<NowPlayingView>)
    requires
        s.mode is Normal,
        only_browses(key),
    ensures
        key_pressed(s, key, now).1.len() == 0,
        ({
            let t = key_pressed(s, key, now).0;
            &&& t.artists == s.artists
            &&& t.queue == s.queue
            &&& t.search_matches == s.search_matches
            &&& t.search_match_pos == s.search_match_pos
            &&& t.should_quit == s.should_quit
            &&& t.mode is Normal
        }),
{
}

/// How long the list is in the pane that has the focus, and where its cursor stands.
pub open spec fn focused_list(s: AppView) -> (nat, usize) {
    match s.focus {
        Focus::Artists => (s.artists.len(), s.selected_artist),
        Focus::Songs => (shown_songs(s).len(), s.selected_song),
    }
}

/// Moving the cursor leaves it on an item of the list, wherever it was and however far it moves: as
/// far away as it was told to, or at the end of the list on the way there.
pub proof fn moving_stays_in_range(s: AppView, delta: int)
    requires
        lists_fit(s),
        focused_list(s).0 > 0,
    ensures
        ({
            let (len, there) = focused_list(moved(s, delta));
            let target = as_signed(focused_list(s).1) + delta;
            &&& len == focused_list(s).0
            &&& there == (if target < 0 {
                0
            } else if target >= len {
                len - 1
            } else {
                target
            })
        }),
        focused_list(moved_to_start(s)).1 == 0,
        focused_list(moved_to_end(s)).1 == focused_list(moved_to_end(s)).0 - 1,
{
}

/// One step down and one up lead back, unless the cursor was on the last item.
pub proof fn moving_down_and_up_returns(s: AppView)
    requires
        wf(s),
        focused_list(s).1 + 1 < focused_list(s).0,
    ensures
        focused_list(moved(moved(s, 1), -1)).1 == focused_list(s).1,
{
}

/// Another artist is shown from its first song.
pub proof fn moving_between_artists_resets_the_song(s: AppView, delta: int)
    requires
        s.focus is Artists,
        s.artists.len() > 0,
    ensures
        moved(s, delta).selected_song == 0,
{
}

/// The first position past the rest of an album: all songs before it are on the album, and the song
/// there is not.
pub(crate) proof fn lemma_album_end(songs: Seq<SongView>, k: int, from: int)
    requires
        0 <= k < from <= songs.len(),
    ensures
        from <= album_end(songs, k, from) <= songs.len(),
        forall|i: int|
            from <= i < album_end(songs, k, from) ==> same_album(songs[k], #[trigger] songs[i]),
        album_end(songs, k, from) < songs.len() ==> !same_album(
            songs[k],
            songs[album_end(songs, k, from)],
        ),
    decreases songs.len() - from,
{
    if from < songs.len() && same_album(songs[k], songs[from]) {
        lemma_album_end(songs, k, from + 1);
    }
}

/// The end of an album is the same, seen from any of its songs.
proof fn lemma_same_album_end(songs: Seq<SongView>, k: int, l: int, from: int)
    requires
        0 <= k < songs.len(),
        0 <= l < songs.len(),
        same_album(songs[k], songs[l]),
        0 <= from <= songs.len(),
    ensures
        album_end(songs, k, from) == album_end(songs, l, from),
    decreases songs.len() - from,
{
    if from < songs.len() && same_album(songs[k], songs[from]) {
        lemma_same_album_end(songs, k, l, from + 1);
    }
}

/// Playing a song queues the rest of its album: every later song of the album, and no other, in
/// the order in which they are listed.
pub proof fn playing_queues_the_rest_of_the_album(
    s: AppView,
    artist_idx: usize,
    song_idx: usize,
    later: usize,
)
    requires
        has_song(s.artists, artist_idx, song_idx),
        s.artists[artist_idx as int].songs.len() <= usize::MAX,
        sorted(s.artists[artist_idx as int].songs, order_of::<Song>()),
    ensures
        ({
            let songs = s.artists[artist_idx as int].songs;
            let queue = play_track(s, artist_idx, song_idx).0.queue;
            &&& song_idx < later < songs.len() ==> (queue.contains((artist_idx, later))
                <==> same_album(songs[song_idx as int], songs[later as int]))
            &&& forall|i: int|
                0 <= i < queue.len() ==> #[trigger] queue[i] == (
                    artist_idx,
                    (song_idx + 1 + i) as usize,
                ) && song_idx + 1 + i < songs.len()
        }),
{
    let songs = s.artists[artist_idx as int].songs;
    let queue = play_track(s, artist_idx, song_idx).0.queue;
    let k = song_idx as int;
    let end = album_end(songs, k, k + 1);
    lemma_album_end(songs, k, k + 1);
    if song_idx < later < songs.len() {
        if later < end {
            assert(queue[later - k - 1] == (artist_idx, later));
        } else {
            if same_album(songs[k], songs[later as int]) {
                albums_are_contiguous(songs, k, end, later as int);
            }
            if queue.contains((artist_idx, later)) {
                let i = choose|i: int| 0 <= i < queue.len() && queue[i] == (artist_idx, later);
                assert(queue[i].1 == k + 1 + i);
            }
        }
    }
}

/// The state after so many tracks ran to their end.
pub open spec fn after_finishes(s: AppView, times: nat) -> AppView
    decreases times,
{
    if times == 0 {
        s
    } else {
        player_synced(after_finishes(s, (times - 1) as nat), None, true).0
    }
}

/// When a track finishes, the next one of its album plays and the queue keeps the rest.
proof fn lemma_next_in_album(s: AppView, artist_idx: usize, k: int)
    requires
        artist_idx < s.artists.len(),
        s.artists[artist_idx as int].songs.len() <= usize::MAX,
        0 <= k < s.artists[artist_idx as int].songs.len(),
        s.queue == rest_of_album(s.artists[artist_idx as int].songs, artist_idx, k),
        s.queue.len() > 0,
    ensures
        k + 1 < s.artists[artist_idx as int].songs.len(),
        s.queue[0] == (artist_idx, (k + 1) as usize),
        player_synced(s, None, true).0 == (AppView {
            queue: rest_of_album(s.artists[artist_idx as int].songs, artist_idx, k + 1),
            ..s
        }),
        s.queue.skip(1) == rest_of_album(s.artists[artist_idx as int].songs, artist_idx, k + 1),
        player_synced(s, None, true).1 == seq![
            EffectView::Send(
                CommandView::Play(track_at(s.artists, artist_idx, (k + 1) as usize)),
            ),
        ],
{
    let songs = s.artists[artist_idx as int].songs;
    lemma_album_end(songs, k, k + 1);
    assert(same_album(songs[k], songs[k + 1]));
    lemma_same_album_end(songs, k, k + 1, k + 2);
    assert(s.queue.skip(1) =~= rest_of_album(songs, artist_idx, k + 1));
}

/// When a track finishes the next song of its album plays, and so on to the end of the album, where
/// playback stops. What is left in the queue is always the rest of the album.
pub proof fn albums_play_through(s: AppView, artist_idx: usize, song_idx: usize, times: nat)
    requires
        has_song(s.artists, artist_idx, song_idx),
        s.artists[artist_idx as int].songs.len() <= usize::MAX,
        times <= play_track(s, artist_idx, song_idx).0.queue.len(),
    ensures
        ({
            let started = play_track(s, artist_idx, song_idx).0;
            let t = after_finishes(started, times);
            let next = player_synced(t, None, true);
            &&& t == (AppView { queue: started.queue.skip(times as int), ..started })
            &&& if times < started.queue.len() {
                next.1 == seq![
                    EffectView::Send(
                        CommandView::Play(
                            track_at(
                                s.artists,
                                artist_idx,
                                (song_idx + 1 + times) as usize,
                            ),
                        ),
                    ),
                ]
            } else {
                next == (t, Seq::<EffectView>::empty())
            }
        }),
{
    let started = play_track(s, artist_idx, song_idx).0;
    lemma_playing_through(s, artist_idx, song_idx, times);
    let t = after_finishes(started, times);
    if times < started.queue.len() {
        lemma_next_in_album(t, artist_idx, song_idx + times);
    }
}

/// After so many finished tracks the queue holds the rest of the album from there on.
proof fn lemma_playing_through(s: AppView, artist_idx: usize, song_idx: usize, times: nat)
    requires
        has_song(s.artists, artist_idx, song_idx),
        s.artists[artist_idx as int].songs.len() <= usize::MAX,
        times <= play_track(s, artist_idx, song_idx).0.queue.len(),
    ensures
        ({
            let started = play_track(s, artist_idx, song_idx).0;
            let songs = s.artists[artist_idx as int].songs;
            let t = after_finishes(started, times);
            &&& song_idx + times < songs.len()
            &&& t == (AppView { queue: started.queue.skip(times as int), ..started })
            &&& t.queue == rest_of_album(songs, artist_idx, song_idx + times)
        }),
    decreases times,
{
    let started = play_track(s, artist_idx, song_idx).0;
    if times == 0 {
        assert(started.queue.skip(0) =~= started.queue);
    } else {
        let before = after_finishes(started, (times - 1) as nat);
        lemma_playing_through(s, artist_idx, song_idx, (times - 1) as nat);
        lemma_next_in_album(before, artist_idx, song_idx + times - 1);
        assert(started.queue.skip(times - 1).skip(1) =~= started.queue.skip(times as int));
    }
}

/// Previous and next never leave the artist of the song that is loaded, and do nothing at either
/// end of the artist's songs.
pub proof fn neighbours_stay_with_the_artist(s: AppView, now: NowPlayingView, delta: int)
    requires
        wf(s),
        has_song(s.artists, now.artist_idx, now.song_idx),
        delta == 1 || delta == -1,
    ensures
        ({
            let (t, effects) = play_relative(s, Some(now), delta);
            let target = now.song_idx + delta;
            if 0 <= target < s.artists[now.artist_idx as int].songs.len() {
                effects == seq![
                    EffectView::Send(
                        CommandView::Play(
                            track_at(s.artists, now.artist_idx, target as usize),
                        ),
                    ),
                ]
            } else {
                t == s && effects.len() == 0
            }
        }),
{
}

/// Nothing is sent to the player by previous and next when nothing is loaded.
pub proof fn no_neighbours_without_a_song(s: AppView, delta: int)
    ensures
        play_relative(s, None, delta) == (s, Seq::<EffectView>::empty()),
{
}

/// While browsing with no command left over, `Esc` pressed twice quits, and once does not.
pub proof fn escape_twice_quits(s: AppView, now: Option<NowPlayingView>)
    requires
        s.mode is Normal,
        s.command_input.len() == 0,
        !s.quit_prompted,
        !s.should_quit,
    ensures
        ({
            let once = key_pressed(s, KeyCode::Esc, now).0;
            let twice = key_pressed(once, KeyCode::Esc, now).0;
            !once.should_quit && once.quit_prompted && twice.should_quit
        }),
{
}

/// Any other key takes the question back, so that the next `Esc` asks again.
pub proof fn other_keys_withdraw_the_question(
    s: AppView,
    key: KeyCode,
    now: Option<NowPlayingView>,
)
    requires
        s.mode is Normal,
        !(key is Esc),
    ensures
        !key_pressed(s, key, now).0.quit_prompted,
{
}

/// The program ends only on a second `Esc` or on the command to quit.
pub proof fn quits_only_when_told(s: AppView, key: KeyCode, now: Option<NowPlayingView>)
    requires
        !s.should_quit,
        key_pressed(s, key, now).0.should_quit,
    ensures
        (s.mode is Normal && key is Esc && s.quit_prompted && s.command_input.len() == 0) || (
        s.mode is Command && key is Enter && first_word(trimmed(s.command_input)) == "quit"@),
{
}

/// Clearing stops playback before the songs are deleted, and leaves nothing queued.
pub proof fn clearing_stops_first(s: AppView)
    requires
        first_word(trimmed(s.command_input)) == "clear"@,
    ensures
        command_executed(s).1 == seq![
            EffectView::Send(CommandView::Stop),
            EffectView::ClearDatabase,
        ],
        command_executed(s).0.queue.len() == 0,
        command_executed(s).0.selected_artist == 0,
        command_executed(s).0.selected_song == 0,
{
    reveal_strlit("clear");
    reveal_strlit("add");
    reveal_strlit("a");
    lemma_no_first_word(trimmed(s.command_input));
}

/// An empty text has an empty first word.
proof fn lemma_no_first_word(s: Seq<char>)
    ensures
        s.len() == 0 ==> first_word(s).len() == 0,
{
}

/// `a` is short for `add`.
pub proof fn add_has_an_alias(s: AppView, input: Seq<char>)
    requires
        first_word(trimmed(s.command_input)) == "add"@,
        first_word(trimmed(input)) == "a"@,
        after_word(trimmed(input)) == after_word(trimmed(s.command_input)),
    ensures
        command_executed(AppView { command_input: input, ..s }) == command_executed(s),
{
    reveal_strlit("add");
    reveal_strlit("a");
    lemma_no_first_word(trimmed(s.command_input));
    lemma_no_first_word(trimmed(input));
}

/// A command is typed without any effect until `Enter`, and `Esc` throws it away.
pub proof fn typing_a_command_has_no_effect(
    s: AppView,
    key: KeyCode,
    now: Option<NowPlayingView>,
)
    requires
        s.mode is Command,
        !(key is Enter),
    ensures
        key_pressed(s, key, now).1.len() == 0,
        ({
            let t = key_pressed(s, key, now).0;
            t == (AppView { command_input: t.command_input, mode: t.mode, ..s })
        }),
        key is Esc ==> key_pressed(s, key, now).0.command_input.len() == 0 && key_pressed(
            s,
            key,
            now,
        ).0.mode is Normal,
{
}

/// `Backspace` takes back the last character that was typed into a command or a search.
pub proof fn backspace_undoes_typing(s: AppView, c: char, now: Option<NowPlayingView>)
    requires
        !(s.mode is Normal),
    ensures
        ({
            let typed = key_pressed(s, KeyCode::Char(c), now).0;
            let t = key_pressed(typed, KeyCode::Backspace, now).0;
            &&& t.command_input == s.command_input
            &&& t.search_input == s.search_input
        }),
{
    assert(s.command_input.push(c).drop_last() =~= s.command_input);
    assert(s.search_input.push(c).drop_last() =~= s.search_input);
}

/// The queue advances when a track has run to its end, and not when it was stopped, or replaced by
/// another that still plays.
pub proof fn only_finished_tracks_advance_the_queue(
    s: AppView,
    status: StatusView,
    report: DeviceReport,
    req: TrackView,
)
    requires
        !status.just_finished,
        status.error is None,
    ensures
        ({
            let seen = refreshed(status, report);
            status.current is Some && report.is_empty ==> player_synced(
                s,
                seen.error,
                seen.just_finished,
            ) == play_next_in_queue(s)
        }),
        ({
            let seen = refreshed(stopped(status), report);
            player_synced(s, seen.error, seen.just_finished) == (s, Seq::<EffectView>::empty())
        }),
        ({
            let seen = refreshed(played(status, req, Opened::Playing), report);
            !report.is_empty ==> player_synced(s, seen.error, seen.just_finished) == (
                s,
                Seq::<EffectView>::empty(),
            )
        }),
{
}

} // verus!
