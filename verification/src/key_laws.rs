//! What each key, each report of the player and each load of the library does, told by what is
//! different afterwards.

use vstd::prelude::*;

use crate::app::{App, Effect, Focus, KeyCode, Mode, StatusMessage};
use crate::db::{entries_of, StoredSongView};
use crate::laws::lemma_album_end;
use crate::library::{is_library_of, ArtistView};
use crate::model::{
    album_end, initial, key_can_move, key_pressed, lemma_wrap, lists_fit, names_in, play_track,
    player_synced, reloaded_from, shown_songs, wf, with_error, with_info, AppView, EffectView,
    MessageView,
};
use crate::player::{CommandView, NowPlayingView, PlayerCommand, TrackView};
use crate::search::matches_in;
use crate::text::{
    after_word, decimal, first_word, is_core, is_one_word, is_space, splitting_at_the_first_space,
    trimmed, trimming_gives_the_core,
};

verus! {

/// The state with the bottom line cleared and no question asked.
pub open spec fn at_rest(s: AppView) -> AppView {
    AppView {
        quit_prompted: false,
        status_message: Some(MessageView { text: ""@, is_error: false }),
        ..s
    }
}

/// Where a cursor at `at` is one step down in a list of `len` items.
pub open spec fn one_down(at: usize, len: nat) -> int {
    if at + 1 < len {
        at + 1
    } else {
        len - 1
    }
}

/// Where a cursor at `at` is one step up in a list of `len` items.
pub open spec fn one_up(at: usize, len: nat) -> int {
    if at == 0 {
        0
    } else if at - 1 < len {
        at - 1
    } else {
        len - 1
    }
}

/// `j` and `k` move the cursor one artist down or up, but not past the ends, and show the artist
/// from the first song. Nothing else changes, and nothing is sent.
pub proof fn j_and_k_move_between_artists(s: AppView, now: Option<NowPlayingView>)
    requires
        wf(s),
        s.mode is Normal,
        s.focus is Artists,
        s.artists.len() > 0,
        s.selected_artist <= isize::MAX,
    ensures
        ({
            let down = key_pressed(s, KeyCode::Char('j'), now);
            let up = key_pressed(s, KeyCode::Char('k'), now);
            &&& down.0.selected_artist == one_down(s.selected_artist, s.artists.len())
            &&& up.0.selected_artist == one_up(s.selected_artist, s.artists.len())
            &&& down.0.selected_song == 0
            &&& up.0.selected_song == 0
            &&& down.0 == at_rest(
                AppView { selected_artist: down.0.selected_artist, selected_song: 0, ..s },
            )
            &&& up.0 == at_rest(
                AppView { selected_artist: up.0.selected_artist, selected_song: 0, ..s },
            )
            &&& down.1.len() == 0
            &&& up.1.len() == 0
        }),
{
}

/// `j` and `k` move the cursor one song of the selected artist down or up, but not past the ends.
/// Nothing else changes, and nothing is sent.
pub proof fn j_and_k_move_between_songs(s: AppView, now: Option<NowPlayingView>)
    requires
        wf(s),
        s.mode is Normal,
        s.focus is Songs,
        s.selected_artist < s.artists.len(),
        s.artists[s.selected_artist as int].songs.len() > 0,
        s.selected_song <= isize::MAX,
    ensures
        ({
            let len = s.artists[s.selected_artist as int].songs.len();
            let down = key_pressed(s, KeyCode::Char('j'), now);
            let up = key_pressed(s, KeyCode::Char('k'), now);
            &&& down.0.selected_song == one_down(s.selected_song, len)
            &&& up.0.selected_song == one_up(s.selected_song, len)
            &&& down.0 == at_rest(AppView { selected_song: down.0.selected_song, ..s })
            &&& up.0 == at_rest(AppView { selected_song: up.0.selected_song, ..s })
            &&& down.1.len() == 0
            &&& up.1.len() == 0
        }),
{
}

/// `g` and `Home` go to the first item of the focused pane, `G` and `End` to the last. Another artist
/// is shown from the first song.
pub proof fn the_ends_are_reached_at_once(s: AppView, now: Option<NowPlayingView>)
    requires
        wf(s),
        s.mode is Normal,
    ensures
        key_pressed(s, KeyCode::Home, now) == key_pressed(s, KeyCode::Char('g'), now),
        key_pressed(s, KeyCode::End, now) == key_pressed(s, KeyCode::Char('G'), now),
        s.focus is Artists && s.artists.len() > 0 ==> key_pressed(s, KeyCode::Char('g'), now) == (
            at_rest(AppView { selected_artist: 0, selected_song: 0, ..s }),
            Seq::<EffectView>::empty(),
        ),
        s.focus is Artists && s.artists.len() > 0 ==> key_pressed(s, KeyCode::Char('G'), now) == (
            at_rest(
                AppView {
                    selected_artist: (s.artists.len() - 1) as usize,
                    selected_song: 0,
                    ..s
                },
            ),
            Seq::<EffectView>::empty(),
        ),
        s.focus is Songs ==> key_pressed(s, KeyCode::Char('g'), now) == (
            at_rest(AppView { selected_song: 0, ..s }),
            Seq::<EffectView>::empty(),
        ),
        s.focus is Songs && s.selected_artist < s.artists.len()
            && s.artists[s.selected_artist as int].songs.len() > 0 ==> key_pressed(
            s,
            KeyCode::Char('G'),
            now,
        ) == (
            at_rest(
                AppView {
                    selected_song: (s.artists[s.selected_artist as int].songs.len() - 1) as usize,
                    ..s
                },
            ),
            Seq::<EffectView>::empty(),
        ),
{
}

/// In an empty list the cursor stays where it is.
pub proof fn empty_lists_keep_the_cursor(s: AppView, key: KeyCode, now: Option<NowPlayingView>)
    requires
        wf(s),
        s.mode is Normal,
        s.focus is Artists ==> s.artists.len() == 0,
        s.focus is Songs ==> s.selected_artist < s.artists.len() ==>
            s.artists[s.selected_artist as int].songs.len() == 0,
        key == KeyCode::Char('j') || key == KeyCode::Char('k') || key == KeyCode::Char('G') || key
            == KeyCode::End,
    ensures
        key_pressed(s, key, now) == (at_rest(s), Seq::<EffectView>::empty()),
{
}

/// `h` puts the focus on the artists, `l` on the songs.
pub proof fn h_and_l_move_the_focus(s: AppView, now: Option<NowPlayingView>)
    requires
        s.mode is Normal,
    ensures
        key_pressed(s, KeyCode::Char('h'), now) == (
            at_rest(AppView { focus: Focus::Artists, ..s }),
            Seq::<EffectView>::empty(),
        ),
        key_pressed(s, KeyCode::Char('l'), now) == (
            at_rest(AppView { focus: Focus::Songs, ..s }),
            Seq::<EffectView>::empty(),
        ),
{
}

/// There is such a song.
pub open spec fn is_listed(artists: Seq<ArtistView>, a: usize, k: usize) -> bool {
    a < artists.len() && k < artists[a as int].songs.len()
}

/// The one command to play song `k` of artist `a`.
pub open spec fn plays_only(
    effects: Seq<EffectView>,
    artists: Seq<ArtistView>,
    a: usize,
    k: usize,
) -> bool {
    let song = artists[a as int].songs[k as int];
    effects == seq![
        EffectView::Send(
            CommandView::Play(
                TrackView {
                    path: song.path,
                    artist: artists[a as int].name,
                    title: song.title,
                    duration: song.duration,
                    artist_idx: a,
                    song_idx: k,
                },
            ),
        ),
    ]
}

/// The queue holds the songs right behind song `k` of artist `a`, one after the other, up to the
/// first that has another album or another year.
pub open spec fn holds_the_rest(
    queue: Seq<(usize, usize)>,
    artists: Seq<ArtistView>,
    a: usize,
    k: usize,
) -> bool {
    let songs = artists[a as int].songs;
    let album = songs[k as int].album;
    let year = songs[k as int].year;
    let end = k + 1 + queue.len();
    &&& end <= songs.len()
    &&& forall|i: int|
        0 <= i < queue.len() ==> (#[trigger] queue[i]).0 == a && queue[i].1 == k + 1 + i
            && songs[k + 1 + i].album == album && songs[k + 1 + i].year == year
    &&& end < songs.len() ==> songs[end].album != album || songs[end].year != year
}

proof fn lemma_play_track(s: AppView, a: usize, k: usize)
    requires
        lists_fit(s),
        is_listed(s.artists, a, k),
    ensures
        ({
            let (t, effects) = play_track(s, a, k);
            &&& plays_only(effects, s.artists, a, k)
            &&& t == (AppView { queue: t.queue, ..s })
            &&& holds_the_rest(t.queue, s.artists, a, k)
        }),
{
    let songs = s.artists[a as int].songs;
    lemma_album_end(songs, k as int, k + 1);
    let queue = play_track(s, a, k).0.queue;
    assert forall|i: int| 0 <= i < queue.len() implies (#[trigger] queue[i]).0 == a && queue[i].1
        == k + 1 + i && songs[k + 1 + i].album == songs[k as int].album && songs[k + 1 + i].year
        == songs[k as int].year by {
        assert(k + 1 <= k + 1 + i < album_end(songs, k as int, k + 1));
        assert(crate::library::same_album(songs[k as int], songs[k + 1 + i]));
    }
}

/// `Enter` plays what is selected: in the artists pane the first song of the selected artist, in the
/// songs pane the selected song of that artist. That is the only command, and the rest of the
/// song's album is queued. Where there is no such song, nothing is sent.
pub proof fn enter_plays_what_is_selected(s: AppView, now: Option<NowPlayingView>)
    requires
        wf(s),
        s.mode is Normal,
    ensures
        ({
            let k: usize = if s.focus is Artists {
                0
            } else {
                s.selected_song
            };
            let (t, effects) = key_pressed(s, KeyCode::Enter, now);
            if is_listed(s.artists, s.selected_artist, k) {
                &&& plays_only(effects, s.artists, s.selected_artist, k)
                &&& holds_the_rest(t.queue, s.artists, s.selected_artist, k)
                &&& t == at_rest(AppView { queue: t.queue, ..s })
            } else {
                effects.len() == 0 && t == at_rest(s)
            }
        }),
{
    let k: usize = if s.focus is Artists {
        0
    } else {
        s.selected_song
    };
    if is_listed(s.artists, s.selected_artist, k) {
        lemma_play_track(s, s.selected_artist, k);
    }
}

/// `c` toggles between playing and pausing what is loaded, and does what `Enter` does when nothing
/// is.
pub proof fn c_plays_or_pauses(s: AppView, now: Option<NowPlayingView>)
    requires
        s.mode is Normal,
    ensures
        now is None ==> key_pressed(s, KeyCode::Char('c'), now) == key_pressed(
            s,
            KeyCode::Enter,
            now,
        ),
        now is Some ==> key_pressed(s, KeyCode::Char('c'), now) == (
            at_rest(s),
            seq![EffectView::Send(CommandView::TogglePause)],
        ),
{
}

/// `v` plays the song behind the loaded one and `z` the song before it, of the same artist, and
/// queues the rest of its album. Where there is none, nothing happens.
pub proof fn v_and_z_play_the_neighbours(s: AppView, now: NowPlayingView, forward: bool)
    requires
        wf(s),
        s.mode is Normal,
        is_listed(s.artists, now.artist_idx, now.song_idx),
    ensures
        ({
            let a = now.artist_idx;
            let key = if forward {
                KeyCode::Char('v')
            } else {
                KeyCode::Char('z')
            };
            let target: int = if forward {
                now.song_idx + 1
            } else {
                now.song_idx - 1
            };
            let (t, effects) = key_pressed(s, key, Some(now));
            if 0 <= target < s.artists[a as int].songs.len() {
                &&& plays_only(effects, s.artists, a, target as usize)
                &&& holds_the_rest(t.queue, s.artists, a, target as usize)
                &&& t == at_rest(AppView { queue: t.queue, ..s })
            } else {
                effects.len() == 0 && t == at_rest(s)
            }
        }),
{
    let target: int = if forward {
        now.song_idx + 1
    } else {
        now.song_idx - 1
    };
    if 0 <= target < s.artists[now.artist_idx as int].songs.len() {
        lemma_play_track(s, now.artist_idx, target as usize);
    }
}

/// Without a loaded song `v` and `z` do nothing.
pub proof fn v_and_z_need_a_loaded_song(s: AppView)
    requires
        s.mode is Normal,
    ensures
        key_pressed(s, KeyCode::Char('v'), None) == (at_rest(s), Seq::<EffectView>::empty()),
        key_pressed(s, KeyCode::Char('z'), None) == (at_rest(s), Seq::<EffectView>::empty()),
{
}

/// `x` restarts the track; the arrows turn the volume up and down by five hundredths.
pub proof fn x_and_the_arrows_reach_the_player(s: AppView, now: Option<NowPlayingView>)
    requires
        s.mode is Normal,
    ensures
        key_pressed(s, KeyCode::Char('x'), now) == (
            at_rest(s),
            seq![EffectView::Send(CommandView::Restart)],
        ),
        key_pressed(s, KeyCode::Up, now) == (
            at_rest(s),
            seq![EffectView::Send(CommandView::AdjustVolume(5))],
        ),
        key_pressed(s, KeyCode::Down, now) == (
            at_rest(s),
            seq![EffectView::Send(CommandView::AdjustVolume((-5) as i32))],
        ),
{
}

/// `:` begins a command, `/` a search of the focused pane, which remembers the selection.
pub proof fn typing_begins_afresh(s: AppView, now: Option<NowPlayingView>)
    requires
        s.mode is Normal,
    ensures
        key_pressed(s, KeyCode::Char(':'), now) == (
            at_rest(AppView { command_input: Seq::empty(), mode: Mode::Command, ..s }),
            Seq::<EffectView>::empty(),
        ),
        key_pressed(s, KeyCode::Char('/'), now) == (
            at_rest(
                AppView {
                    mode: Mode::Search,
                    search_input: Seq::empty(),
                    search_matches: Seq::empty(),
                    search_match_pos: 0,
                    search_focus: s.focus,
                    search_origin: (s.selected_artist, s.selected_song),
                    ..s
                },
            ),
            Seq::<EffectView>::empty(),
        ),
{
}

/// Whether a key does anything while browsing.
pub open spec fn is_bound(key: KeyCode) -> bool {
    match key {
        KeyCode::Char(c) => seq![
            'j',
            'k',
            'g',
            'G',
            'h',
            'l',
            'z',
            'x',
            'c',
            'v',
            ':',
            '/',
            'n',
            'N',
        ].contains(c),
        KeyCode::Backspace => false,
        KeyCode::Other => false,
        _ => true,
    }
}

/// Any other key only clears the bottom line and takes back the question whether to quit.
pub proof fn other_keys_do_nothing(s: AppView, key: KeyCode, now: Option<NowPlayingView>)
    requires
        s.mode is Normal,
        !is_bound(key),
    ensures
        key_pressed(s, key, now) == (at_rest(s), Seq::<EffectView>::empty()),
{
    if let KeyCode::Char(c) = key {
        let bound = seq!['j', 'k', 'g', 'G', 'h', 'l', 'z', 'x', 'c', 'v', ':', '/', 'n', 'N'];
        assert(bound[0] == 'j' && bound[1] == 'k' && bound[2] == 'g' && bound[3] == 'G' && bound[4]
            == 'h' && bound[5] == 'l' && bound[6] == 'z' && bound[7] == 'x' && bound[8] == 'c'
            && bound[9] == 'v' && bound[10] == ':' && bound[11] == '/' && bound[12] == 'n'
            && bound[13] == 'N');
    }
}

/// `n` goes to the next match and `N` to the one before, around the end: the match becomes the
/// selection of the pane that was searched, which gets the focus, and the bottom line counts the
/// match. Without matches nothing is selected or told.
pub proof fn n_goes_from_match_to_match(s: AppView, now: Option<NowPlayingView>, forward: bool)
    requires
        wf(s),
        s.mode is Normal,
    ensures
        ({
            let key = if forward {
                KeyCode::Char('n')
            } else {
                KeyCode::Char('N')
            };
            let (t, effects) = key_pressed(s, key, now);
            let count = s.search_matches.len();
            let pos: int = if forward && s.search_match_pos + 1 < count {
                s.search_match_pos + 1
            } else if forward {
                0
            } else if s.search_match_pos > 0 {
                s.search_match_pos - 1
            } else {
                count - 1
            };
            let found = s.search_matches[pos];
            &&& effects.len() == 0
            &&& count == 0 ==> t == (AppView { quit_prompted: false, ..s })
            &&& count > 0 ==> t == (AppView {
                search_match_pos: pos as usize,
                focus: s.search_focus,
                selected_artist: if s.search_focus is Artists {
                    found
                } else {
                    s.selected_artist
                },
                selected_song: if s.search_focus is Artists {
                    0
                } else {
                    found
                },
                status_message: Some(
                    MessageView {
                        text: "match "@ + decimal((pos + 1) as nat) + "/"@ + decimal(count)
                            + " for \""@ + s.search_input + "\""@,
                        is_error: false,
                    },
                ),
                quit_prompted: false,
                ..s
            })
        }),
{
    if s.search_matches.len() > 0 {
        lemma_wrap(s.search_match_pos as int, 1, s.search_matches.len() as int);
        lemma_wrap(s.search_match_pos as int, -1, s.search_matches.len() as int);
    }
}

/// `Esc` while browsing throws away a command that was left over; without one it asks whether to
/// quit, and when it has asked it quits.
pub proof fn escape_asks_and_quits(s: AppView, now: Option<NowPlayingView>)
    requires
        s.mode is Normal,
    ensures
        key_pressed(s, KeyCode::Esc, now).1.len() == 0,
        s.command_input.len() > 0 ==> key_pressed(s, KeyCode::Esc, now).0 == (AppView {
            command_input: Seq::empty(),
            ..s
        }),
        s.command_input.len() == 0 && s.quit_prompted ==> key_pressed(s, KeyCode::Esc, now).0 == (
        AppView { should_quit: true, ..s }),
        s.command_input.len() == 0 && !s.quit_prompted ==> key_pressed(s, KeyCode::Esc, now).0 == (
        AppView {
            quit_prompted: true,
            status_message: Some(
                MessageView { text: "Really quit? (esc again to quit)"@, is_error: true },
            ),
            ..s
        }),
{
}

/// A command is typed character by character, and taken back from its end; `Esc` throws it away,
/// and other keys do nothing. Nothing but the command and the mode changes.
pub proof fn commands_are_typed(s: AppView, c: char, key: KeyCode, now: Option<NowPlayingView>)
    requires
        s.mode is Command,
    ensures
        key_pressed(s, KeyCode::Char(c), now) == (
            AppView { command_input: s.command_input.push(c), ..s },
            Seq::<EffectView>::empty(),
        ),
        s.command_input.len() > 0 ==> key_pressed(s, KeyCode::Backspace, now) == (
            AppView { command_input: s.command_input.drop_last(), ..s },
            Seq::<EffectView>::empty(),
        ),
        s.command_input.len() == 0 ==> key_pressed(s, KeyCode::Backspace, now) == (
            s,
            Seq::<EffectView>::empty(),
        ),
        key_pressed(s, KeyCode::Esc, now) == (
            AppView { command_input: Seq::empty(), mode: Mode::Normal, ..s },
            Seq::<EffectView>::empty(),
        ),
        key is Home || key is End || key is Up || key is Down || key is Other ==> key_pressed(
            s,
            key,
            now,
        ) == (s, Seq::<EffectView>::empty()),
{
}

/// The state after a command was entered, before it shows.
pub open spec fn entered(s: AppView) -> AppView {
    AppView { command_input: Seq::empty(), mode: Mode::Normal, ..s }
}

/// The state with an error shown.
pub open spec fn shows_error(s: AppView, text: Seq<char>) -> AppView {
    AppView { status_message: Some(MessageView { text, is_error: true }), ..s }
}

/// What the first word of a command leads to. A blank command leads to nothing. White space around
/// the command does not matter.
pub proof fn the_first_word_is_the_command(s: AppView, now: Option<NowPlayingView>)
    requires
        s.mode is Command,
    ensures
        ({
            let input = trimmed(s.command_input);
            let word = first_word(input);
            let rest = after_word(input);
            let r = key_pressed(s, KeyCode::Enter, now);
            let adds = word == "add"@ || word == "a"@;
            &&& input.len() == 0 ==> r == (entered(s), Seq::<EffectView>::empty())
            &&& adds && rest.len() > 0 ==> r == (entered(s), seq![EffectView::Import(rest)])
            &&& adds && rest.len() == 0 ==> r == (
                shows_error(entered(s), "add requires a path argument"@),
                Seq::<EffectView>::empty(),
            )
            &&& word == "clear"@ ==> r == (
                AppView {
                    queue: Seq::empty(),
                    selected_artist: 0,
                    selected_song: 0,
                    ..entered(s)
                },
                seq![EffectView::Send(CommandView::Stop), EffectView::ClearDatabase],
            )
            &&& word == "quit"@ ==> r == (
                AppView { should_quit: true, ..entered(s) },
                Seq::<EffectView>::empty(),
            )
            &&& input.len() > 0 && !adds && word != "clear"@ && word != "quit"@ ==> r == (
                shows_error(entered(s), "unknown command: "@ + word),
                Seq::<EffectView>::empty(),
            )
        }),
{
    reveal_strlit("add");
    reveal_strlit("a");
    reveal_strlit("clear");
    reveal_strlit("quit");
    assert("add"@.len() == 3 && "a"@.len() == 1 && "clear"@.len() == 5 && "quit"@.len() == 4);
    assert("quit"@[0] == 'q' && "clear"@[0] == 'c' && "add"@[0] == 'a' && "a"@[0] == 'a');
}

/// Adding a path imports that path: the word, a white space and the path, whatever other white space
/// the path holds.
pub proof fn add_imports_the_path(
    s: AppView,
    space: char,
    path: Seq<char>,
    now: Option<NowPlayingView>,
)
    requires
        s.mode is Command,
        s.command_input == "add"@ + seq![space] + path || s.command_input == "a"@ + seq![space]
            + path,
        is_space(space),
        path.len() > 0,
        !is_space(path[0]),
        !is_space(path.last()),
    ensures
        key_pressed(s, KeyCode::Enter, now) == (entered(s), seq![EffectView::Import(path)]),
{
    reveal_strlit("add");
    reveal_strlit("a");
    let word = if s.command_input == "add"@ + seq![space] + path {
        "add"@
    } else {
        "a"@
    };
    let input = s.command_input;
    assert(is_one_word("add"@));
    assert(is_one_word("a"@));
    assert(input[0] == word[0]);
    assert(input.last() == path.last());
    assert(is_core(input, 0, input.len() as int));
    trimming_gives_the_core(input, 0, input.len() as int);
    assert(input.subrange(0, input.len() as int) =~= input);
    splitting_at_the_first_space(word, space, path);
    assert(is_core(path, 0, path.len() as int));
    trimming_gives_the_core(path, 0, path.len() as int);
    assert(path.subrange(0, path.len() as int) =~= path);
    the_first_word_is_the_command(s, now);
}

/// The names listed in a pane are those of the artists, or the titles of the selected artist's
/// songs, which are the songs shown.
pub proof fn panes_list_names(s: AppView)
    ensures
        s.selected_artist < s.artists.len() ==> shown_songs(s)
            == s.artists[s.selected_artist as int].songs,
        s.selected_artist >= s.artists.len() ==> shown_songs(s).len() == 0,
        names_in(s, Focus::Artists).len() == s.artists.len(),
        forall|i: int|
            0 <= i < s.artists.len() ==> #[trigger] names_in(s, Focus::Artists)[i]
                == s.artists[i].name,
        s.selected_artist >= s.artists.len() ==> names_in(s, Focus::Songs).len() == 0,
        s.selected_artist < s.artists.len() ==> {
            let songs = s.artists[s.selected_artist as int].songs;
            &&& names_in(s, Focus::Songs).len() == songs.len()
            &&& forall|i: int|
                0 <= i < songs.len() ==> #[trigger] names_in(s, Focus::Songs)[i] == songs[i].title
        },
{
}

/// The state once `input` is sought: the matches are those among the names in the searched pane,
/// and the first of them, the best, is selected there. Without a match the selection stays.
pub open spec fn seeks(s: AppView, input: Seq<char>, t: AppView) -> bool {
    let found = matches_in(input, names_in(s, s.search_focus));
    t == AppView {
        search_input: input,
        search_matches: found,
        search_match_pos: 0,
        selected_artist: if found.len() > 0 && s.search_focus is Artists {
            found[0]
        } else {
            s.selected_artist
        },
        selected_song: if found.len() == 0 {
            s.selected_song
        } else if s.search_focus is Artists {
            0
        } else {
            found[0]
        },
        ..s
    }
}

/// A search is typed character by character and taken back from its end, and what is typed is
/// sought at once. `Esc` goes back to the selection from before; other keys do nothing.
pub proof fn searches_are_typed(s: AppView, c: char, key: KeyCode, now: Option<NowPlayingView>)
    requires
        s.mode is Search,
    ensures
        seeks(s, s.search_input.push(c), key_pressed(s, KeyCode::Char(c), now).0),
        s.search_input.len() > 0 ==> seeks(
            s,
            s.search_input.drop_last(),
            key_pressed(s, KeyCode::Backspace, now).0,
        ),
        s.search_input.len() == 0 ==> seeks(
            s,
            s.search_input,
            key_pressed(s, KeyCode::Backspace, now).0,
        ),
        key_pressed(s, KeyCode::Esc, now).0 == (AppView {
            selected_artist: s.search_origin.0,
            selected_song: s.search_origin.1,
            search_input: Seq::empty(),
            search_matches: Seq::empty(),
            mode: Mode::Normal,
            ..s
        }),
        key is Home || key is End || key is Up || key is Down || key is Other ==> key_pressed(
            s,
            key,
            now,
        ).0 == s,
        key_pressed(s, key, now).1.len() == 0,
{
}

/// `Enter` ends a search and tells how many matches there are and which one is selected, or that
/// there is none; if nothing was typed it tells nothing.
pub proof fn searches_end_with_a_count(s: AppView, now: Option<NowPlayingView>)
    requires
        wf(s),
        s.mode is Search,
    ensures
        ({
            let t = key_pressed(s, KeyCode::Enter, now).0;
            let left = AppView { mode: Mode::Normal, ..s };
            let count = s.search_matches.len();
            &&& s.search_input.len() == 0 ==> t == left
            &&& s.search_input.len() > 0 && count == 0 ==> t == shows_error(
                left,
                "no match: "@ + s.search_input,
            )
            &&& s.search_input.len() > 0 && count > 0 ==> t == (AppView {
                status_message: Some(
                    MessageView {
                        text: "match "@ + decimal((s.search_match_pos + 1) as nat) + "/"@ + decimal(
                            count,
                        ) + " for \""@ + s.search_input + "\""@,
                        is_error: false,
                    },
                ),
                ..left
            })
        }),
{
}

/// A report of the player shows its error. When a track has finished, the first song of the queue
/// plays and the rest of its album is queued; with an empty queue nothing plays, and a queued song
/// that is gone leaves the queue without playing.
pub proof fn finished_tracks_make_way(s: AppView, error: Option<Seq<char>>, finished: bool)
    requires
        wf(s),
    ensures
        ({
            let told = if error is Some {
                shows_error(s, error->0)
            } else {
                s
            };
            let (t, effects) = player_synced(s, error, finished);
            let (a, k) = s.queue[0];
            if !finished || s.queue.len() == 0 {
                effects.len() == 0 && t == told
            } else if is_listed(s.artists, a, k) {
                &&& plays_only(effects, s.artists, a, k)
                &&& holds_the_rest(t.queue, s.artists, a, k)
                &&& t == (AppView { queue: t.queue, ..told })
            } else {
                &&& effects.len() == 0
                &&& t == (AppView {
                    queue: s.queue.skip(1),
                    status_message: Some(
                        MessageView { text: "No song selected."@, is_error: false },
                    ),
                    ..s
                })
            }
        }),
{
    let told = if error is Some {
        shows_error(s, error->0)
    } else {
        s
    };
    if finished && s.queue.len() > 0 && is_listed(s.artists, s.queue[0].0, s.queue[0].1) {
        lemma_play_track(
            AppView { queue: s.queue.skip(1), ..told },
            s.queue[0].0,
            s.queue[0].1,
        );
    }
}

/// A message is shown as it is, marked if it is an error, and nothing else changes.
pub proof fn messages_are_shown(s: AppView, text: Seq<char>)
    ensures
        with_error(s, text) == shows_error(s, text),
        with_info(s, text) == (AppView {
            status_message: Some(MessageView { text, is_error: false }),
            ..s
        }),
{
}

/// Loading the library anew replaces the artists by those of the rows and forgets the matches.
/// Nothing else changes.
pub proof fn loading_replaces_the_library(s: AppView, rows: Seq<StoredSongView>, t: AppView)
    requires
        reloaded_from(s, rows, t),
    ensures
        is_library_of(t.artists, entries_of(rows)),
        t.search_matches.len() == 0,
        t == (AppView { artists: t.artists, search_matches: Seq::empty(), ..s }),
{
}

/// At the start nothing is listed, typed, found, queued or told, and the artists have the focus.
pub proof fn nothing_is_there_at_the_start()
    ensures
        initial().artists.len() == 0,
        initial().focus is Artists,
        initial().mode is Normal,
        initial().selected_artist == 0,
        initial().selected_song == 0,
        initial().command_input.len() == 0,
        initial().search_input.len() == 0,
        initial().search_matches.len() == 0,
        initial().search_focus is Artists,
        initial().status_message is None,
        !initial().quit_prompted,
        !initial().should_quit,
        initial().queue.len() == 0,
{
}

/// Every state with lists that fit in memory and places that such lists can have is well formed,
/// and every key can be pressed in it.
pub proof fn ordinary_states_are_wf(s: AppView, key: KeyCode, now: Option<NowPlayingView>)
    requires
        s.artists.len() <= isize::MAX,
        forall|i: int|
            0 <= i < s.artists.len() ==> (#[trigger] s.artists[i]).songs.len() <= isize::MAX,
        s.selected_artist < isize::MAX,
        s.selected_song < isize::MAX,
        s.search_origin.0 < isize::MAX,
        s.search_origin.1 < isize::MAX,
        s.search_matches.len() <= isize::MAX,
        s.search_matches.len() > 0 ==> s.search_match_pos < s.search_matches.len(),
        forall|i: int|
            0 <= i < s.search_matches.len() ==> (#[trigger] s.search_matches[i]) < isize::MAX,
        now is Some ==> now->0.song_idx < isize::MAX,
    ensures
        wf(s),
        key_can_move(s, key, now),
{
}

/// The model of the state has each public field in its place.
pub proof fn app_views_hold_the_fields(app: App, message: StatusMessage)
    ensures
        app@.artists == app.library@,
        app@.focus == app.focus,
        app@.mode == app.mode,
        app@.selected_artist == app.selected_artist,
        app@.selected_song == app.selected_song,
        app@.command_input == app.command_input@,
        app@.search_input == app.search_input@,
        app.status_message is None <==> app@.status_message is None,
        app.status_message is Some ==> app@.status_message == Some(app.status_message->0@),
        app@.quit_prompted == app.quit_prompted,
        app@.should_quit == app.should_quit,
        message@.text == message.text@,
        message@.is_error == message.is_error,
{
}

/// The model of an effect is of the same kind and carries the same.
pub proof fn effect_views_hold_the_fields(command: PlayerCommand, path: String)
    ensures
        Effect::Send(command)@ == EffectView::Send(command@),
        Effect::Import(path)@ == EffectView::Import(path@),
        Effect::ClearDatabase@ == EffectView::ClearDatabase,
{
}

} // verus!
