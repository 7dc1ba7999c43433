//! The state behind the screen and what each key does to it.

use vstd::prelude::*;

use std::collections::VecDeque;

use crate::db::{load_library, DbError, StoredSong};
use crate::library::{Library, LibraryError};
use crate::model;
use crate::model::{as_signed, clamped, wf, AppView, EffectView, MessageView, SearchView};
use crate::order::views;
use crate::player::{PlayerCommand, PlayerStatus, StatusView, TrackRequest};
use crate::search::{match_kind, order_matches, MatchKind};
use crate::text::{decimal, decimal_text, same_text, split_word, trim};
use crate::ui;
use crate::ui::{CommandLine, Row, Tone};

verus! {

/// The pane that has the focus.
#[derive(Debug, Clone, Copy, PartialEq, Eq, Structural)]
pub enum Focus {
    Artists,
    Songs,
}

/// What keys are taken for.
#[derive(Debug, Clone, Copy, PartialEq, Eq, Structural)]
pub enum Mode {
    Normal,
    Command,
    Search,
}

/// How much one key press changes the volume, in hundredths of full volume.
pub const VOLUME_STEP: i32 = 5;

/// The line shown at the bottom.
#[derive(Debug)]
pub struct StatusMessage {
    pub text: String,
    pub is_error: bool,
}

impl View for StatusMessage {
    type V = MessageView;

    open spec fn view(&self) -> MessageView {
        MessageView { text: self.text@, is_error: self.is_error }
    }
}

/// The message shown, if any.
pub open spec fn opt_message(m: Option<StatusMessage>) -> Option<MessageView> {
    match m {
        Some(x) => Some(x@),
        None => None,
    }
}

/// A key that was pressed.
#[derive(Debug, Clone, Copy, PartialEq, Eq, Structural)]
pub enum KeyCode {
    Enter,
    Esc,
    Backspace,
    Home,
    End,
    Up,
    Down,
    Char(char),
    Other,
}

/// Work that the caller has to do.
#[derive(Debug)]
pub enum Effect {
    /// Send this command to the player.
    Send(PlayerCommand),
    /// Scan this path, store what was found, and call [`App::import_finished`].
    Import(String),
    /// Delete all stored songs, load what is left, and call [`App::clear_finished`].
    ClearDatabase,
}

impl View for Effect {
    type V = EffectView;

    open spec fn view(&self) -> EffectView {
        match *self {
            Effect::Send(command) => EffectView::Send(command@),
            Effect::Import(path) => EffectView::Import(path@),
            Effect::ClearDatabase => EffectView::ClearDatabase,
        }
    }
}

/// What came of an import.
#[derive(Debug)]
pub enum ImportOutcome {
    /// The path could not be scanned.
    ScanFailed(LibraryError),
    /// The songs that were found could not be stored.
    StoreFailed(DbError),
    /// So many songs were stored; with them, what the database holds now.
    Stored { count: usize, loaded: Result<Vec<StoredSong>, DbError> },
}

/// What a search has found.
#[derive(Debug)]
pub struct SearchState {
    /// Indices (within whichever pane's list `focus` names) of items matching the most recent
    /// search, best match first.
    matches: Vec<usize>,
    match_pos: usize,
    focus: Focus,
    /// Selection to restore if the search is cancelled with `Esc`.
    origin: (usize, usize),
}

impl View for SearchState {
    type V = SearchView;

    closed spec fn view(&self) -> SearchView {
        SearchView {
            matches: self.matches@,
            match_pos: self.match_pos,
            focus: self.focus,
            origin: self.origin,
        }
    }
}

/// Remaining songs (artist_idx, song_idx) queued to auto-play after the current track, all drawn
/// from the same album as whatever was last explicitly played.
#[derive(Debug)]
pub struct PlayQueue {
    places: VecDeque<(usize, usize)>,
}

impl View for PlayQueue {
    type V = Seq<(usize, usize)>;

    closed spec fn view(&self) -> Seq<(usize, usize)> {
        self.places@
    }
}

/// What is browsed, what is typed, what was found and what plays next.
#[derive(Debug)]
pub struct App {
    pub library: Library,
    pub focus: Focus,
    pub mode: Mode,
    pub selected_artist: usize,
    pub selected_song: usize,
    pub command_input: String,
    pub search_input: String,
    /// What was found, and what to go back to.
    pub search: SearchState,
    pub status_message: Option<StatusMessage>,
    pub quit_prompted: bool,
    pub should_quit: bool,
    /// What plays next.
    pub queue: PlayQueue,
}

impl View for App {
    type V = AppView;

    open spec fn view(&self) -> AppView {
        AppView {
            artists: self.library@,
            focus: self.focus,
            mode: self.mode,
            selected_artist: self.selected_artist,
            selected_song: self.selected_song,
            command_input: self.command_input@,
            search_input: self.search_input@,
            search_matches: self.search@.matches,
            search_match_pos: self.search@.match_pos,
            search_focus: self.search@.focus,
            search_origin: self.search@.origin,
            status_message: opt_message(self.status_message),
            quit_prompted: self.quit_prompted,
            should_quit: self.should_quit,
            queue: self.queue@,
        }
    }
}

/// Moves an index by `delta`, but not past either end of a list of `len` items.
pub fn clamp_index(current: usize, delta: isize, len: usize) -> (r: usize)
    requires
        len > 0 ==> len - 1 <= isize::MAX,
        len > 0 ==> isize::MIN <= as_signed(current) + delta <= isize::MAX,
    ensures
        r == clamped(current, delta as int, len as nat),
        len > 0 ==> r < len,
{
    if len == 0 {
        return 0;
    }
    let signed: isize = if current <= isize::MAX as usize {
        current as isize
    } else {
        -1 - (usize::MAX - current) as isize
    };
    let next: isize = signed + delta;
    if next < 0 {
        0
    } else if next as usize >= len {
        len - 1
    } else {
        next as usize
    }
}

fn no_effects() -> (r: Vec<Effect>)
    ensures
        views(r@) == Seq::<EffectView>::empty(),
{
    let r: Vec<Effect> = Vec::new();
    assert(views(r@) =~= Seq::<EffectView>::empty());
    r
}

fn one_effect(effect: Effect) -> (r: Vec<Effect>)
    ensures
        views(r@) == seq![effect@],
{
    let mut r: Vec<Effect> = Vec::new();
    r.push(effect);
    assert(views(r@) =~= seq![effect@]);
    r
}

impl App {
    fn set_error(&mut self, text: String)
        ensures
            final(self)@ == model::with_error(old(self)@, text@),
    {
        self.status_message = Some(StatusMessage { text, is_error: true });
    }

    fn set_info(&mut self, text: String)
        ensures
            final(self)@ == model::with_info(old(self)@, text@),
    {
        self.status_message = Some(StatusMessage { text, is_error: false });
    }

    /// Moves the cursor within whichever pane currently has focus (browsing only; does not
    /// affect what's playing).
    fn move_selection(&mut self, delta: isize)
        requires
            model::lists_fit(old(self)@),
            model::cursor_can_move(old(self)@, delta as int),
        ensures
            final(self)@ == model::moved(old(self)@, delta as int),
    {
        match self.focus {
            Focus::Artists => {
                let len: usize = self.library.artists.len();
                if len == 0 {
                    return;
                }
                self.selected_artist = clamp_index(self.selected_artist, delta, len);
                self.selected_song = 0;
            },
            Focus::Songs => {
                if self.selected_artist >= self.library.artists.len() {
                    return;
                }
                let len: usize = self.library.artists[self.selected_artist].songs.len();
                proof {
                    assert(self@.artists[self.selected_artist as int].songs.len() == len);
                }
                if len == 0 {
                    return;
                }
                self.selected_song = clamp_index(self.selected_song, delta, len);
            },
        }
    }

    /// Jumps the cursor within whichever pane currently has focus to the first item.
    fn move_to_start(&mut self)
        ensures
            final(self)@ == model::moved_to_start(old(self)@),
    {
        match self.focus {
            Focus::Artists => {
                if self.library.artists.len() > 0 {
                    self.selected_artist = 0;
                    self.selected_song = 0;
                }
            },
            Focus::Songs => {
                self.selected_song = 0;
            },
        }
    }

    /// Jumps the cursor within whichever pane currently has focus to the last item.
    fn move_to_end(&mut self)
        ensures
            final(self)@ == model::moved_to_end(old(self)@),
    {
        match self.focus {
            Focus::Artists => {
                let len: usize = self.library.artists.len();
                if len > 0 {
                    self.selected_artist = len - 1;
                    self.selected_song = 0;
                }
            },
            Focus::Songs => {
                if self.selected_artist >= self.library.artists.len() {
                    return;
                }
                let len: usize = self.library.artists[self.selected_artist].songs.len();
                proof {
                    assert(self@.artists[self.selected_artist as int].songs.len() == len);
                }
                if len > 0 {
                    self.selected_song = len - 1;
                }
            },
        }
    }

    /// Plays the given song and re-queues the rest of its album (the songs after it, in track
    /// order), replacing whatever was previously queued.
    fn play_track(&mut self, artist_idx: usize, song_idx: usize) -> (r: Vec<Effect>)
        ensures
            (final(self)@, views(r@)) == model::play_track(old(self)@, artist_idx, song_idx),
    {
        let ghost before = self@;
        if artist_idx >= self.library.artists.len() {
            self.set_info("No song selected.".to_owned());
            return no_effects();
        }
        proof {
            assert(before.artists[artist_idx as int] == self.library.artists@[artist_idx as int]@);
        }
        if song_idx >= self.library.artists[artist_idx].songs.len() {
            self.set_info("No song selected.".to_owned());
            return no_effects();
        }
        let artist = &self.library.artists[artist_idx];
        let song = &artist.songs[song_idx];
        let ghost shown = before.artists[artist_idx as int].songs;
        assert(shown[song_idx as int] == song@);
        let request = TrackRequest {
            path: song.path.clone(),
            artist: artist.name.clone(),
            title: song.title.clone(),
            duration: song.duration,
            artist_idx,
            song_idx,
        };
        let mut queue: VecDeque<(usize, usize)> = VecDeque::new();
        let mut next: usize = song_idx + 1;
        while next < artist.songs.len() && song.same_album_as(&artist.songs[next])
            invariant
                song_idx < next <= artist.songs@.len(),
                shown == views(artist.songs@),
                song == artist.songs@[song_idx as int],
                queue@ == Seq::new(
                    (next - song_idx - 1) as nat,
                    |i: int| (artist_idx, (song_idx + 1 + i) as usize),
                ),
                model::album_end(shown, song_idx as int, song_idx + 1) == model::album_end(
                    shown,
                    song_idx as int,
                    next as int,
                ),
            decreases artist.songs.len() - next,
        {
            assert(shown[next as int] == artist.songs@[next as int]@);
            queue.push_back((artist_idx, next));
            next = next + 1;
            assert(queue@ =~= Seq::new(
                (next - song_idx - 1) as nat,
                |i: int| (artist_idx, (song_idx + 1 + i) as usize),
            ));
        }
        proof {
            if next < artist.songs@.len() {
                assert(shown[next as int] == artist.songs@[next as int]@);
            }
            assert(queue@ =~= model::rest_of_album(shown, artist_idx, song_idx as int));
        }
        self.queue.places = queue;
        one_effect(Effect::Send(PlayerCommand::Play(request)))
    }

    /// Plays whatever is currently under the cursor, replacing any track already playing.
    fn play_selected(&mut self) -> (r: Vec<Effect>)
        ensures
            (final(self)@, views(r@)) == model::play_selected(old(self)@),
    {
        match self.focus {
            Focus::Songs => self.play_track(self.selected_artist, self.selected_song),
            Focus::Artists => self.play_track(self.selected_artist, 0),
        }
    }

    fn toggle_play_pause(&mut self, status: &PlayerStatus) -> (r: Vec<Effect>)
        ensures
            (final(self)@, views(r@)) == model::toggle_play_pause(
                old(self)@,
                status@.current,
            ),
    {
        if status.current.is_some() {
            one_effect(Effect::Send(PlayerCommand::TogglePause))
        } else {
            // Nothing is loaded yet: start playing whatever is currently selected.
            self.play_selected()
        }
    }

    /// Moves playback to the next/previous song within the artist of the currently playing
    /// track (not the browsing cursor). No-ops if nothing is currently playing, or if already
    /// at the first/last song of that artist.
    fn play_relative(&mut self, status: &PlayerStatus, delta: isize) -> (r: Vec<Effect>)
        requires
            model::lists_fit(old(self)@),
            model::loaded_can_move(old(self)@, status@.current, delta as int),
        ensures
            (final(self)@, views(r@)) == model::play_relative(
                old(self)@,
                status@.current,
                delta as int,
            ),
    {
        match &status.current {
            None => no_effects(),
            Some(now) => {
                if now.artist_idx >= self.library.artists.len() {
                    return no_effects();
                }
                let len: usize = self.library.artists[now.artist_idx].songs.len();
                proof {
                    assert(self@.artists[now.artist_idx as int].songs.len() == len);
                }
                if len == 0 {
                    return no_effects();
                }
                let target: usize = clamp_index(now.song_idx, delta, len);
                if target == now.song_idx {
                    return no_effects();
                }
                self.play_track(now.artist_idx, target)
            },
        }
    }

    /// Advances to the next queued song when the current one has finished on its own. No-ops if
    /// the queue is empty (end of album).
    fn play_next_in_queue(&mut self) -> (r: Vec<Effect>)
        ensures
            (final(self)@, views(r@)) == model::play_next_in_queue(old(self)@),
    {
        let ghost before = self@;
        match self.queue.places.pop_front() {
            Some((artist_idx, song_idx)) => {
                proof {
                    assert(self@ =~= (AppView { queue: before.queue.skip(1), ..before }));
                }
                self.play_track(artist_idx, song_idx)
            },
            None => no_effects(),
        }
    }

    /// Begins a search over whichever pane currently has focus. The pane searched, and the
    /// selection to restore on `Esc`, are pinned at this point so that later `n`/`N` cycling and
    /// cancellation are unaffected by focus changes made while typing.
    fn start_search(&mut self)
        ensures
            final(self)@ == model::search_started(old(self)@),
    {
        self.search_input = String::new();
        self.search.matches = Vec::new();
        self.search.match_pos = 0;
        self.search.focus = self.focus;
        self.search.origin = (self.selected_artist, self.selected_song);
        self.mode = Mode::Search;
    }

    /// Restores the pre-search selection and drops back to normal mode.
    fn cancel_search(&mut self)
        ensures
            final(self)@ == model::search_cancelled(old(self)@),
    {
        self.selected_artist = self.search.origin.0;
        self.selected_song = self.search.origin.1;
        self.search_input = String::new();
        self.search.matches = Vec::new();
        self.mode = Mode::Normal;
    }

    /// Leaves search mode but keeps the current matches so `n`/`N` can keep cycling through them.
    fn finish_search(&mut self)
        requires
            wf(old(self)@),
        ensures
            final(self)@ == model::search_finished(old(self)@),
    {
        self.mode = Mode::Normal;
        if self.search_input.as_str().is_empty() {
            return;
        }
        self.report_search_status();
    }

    /// Surfaces the current match position (or the lack of any match) in the status line.
    fn report_search_status(&mut self)
        requires
            wf(old(self)@),
        ensures
            final(self)@ == model::search_reported(old(self)@),
    {
        if self.search.matches.len() == 0 {
            let text = "no match: ".to_owned().concat(self.search_input.as_str());
            self.set_error(text);
        } else {
            let pos = decimal_text((self.search.match_pos + 1) as u64);
            let count = decimal_text(self.search.matches.len() as u64);
            let text = "match ".to_owned().concat(pos.as_str()).concat("/").concat(
                count.as_str(),
            ).concat(" for \"").concat(self.search_input.as_str()).concat("\"");
            self.set_info(text);
        }
    }

    /// Indices of items in `focus`'s pane whose name matches `query`, best match first: an item
    /// starting with `query` ranks above one that merely contains it, which in turn ranks above a
    /// non-contiguous fuzzy match. Ties keep list order.
    fn matching_indices(&self, focus: Focus, query: &str) -> (r: Vec<usize>)
        ensures
            r@ == crate::search::matches_in(query@, model::names_in(self@, focus)),
    {
        if query.is_empty() {
            return Vec::new();
        }
        let ghost names = model::names_in(self@, focus);
        let mut kinds: Vec<Option<MatchKind>> = Vec::new();
        match focus {
            Focus::Artists => {
                let mut k: usize = 0;
                while k < self.library.artists.len()
                    invariant
                        names == model::names_in(self@, Focus::Artists),
                        k <= self.library.artists@.len(),
                        kinds@.len() == k,
                        forall|i: int|
                            0 <= i < k ==> #[trigger] kinds@[i] == crate::search::match_of(
                                query@,
                                names[i],
                            ),
                    decreases self.library.artists.len() - k,
                {
                    assert(names[k as int] == self.library.artists@[k as int].name@);
                    kinds.push(match_kind(query, self.library.artists[k].name.as_str()));
                    k = k + 1;
                }
            },
            Focus::Songs => {
                if self.selected_artist >= self.library.artists.len() {
                    assert(crate::search::kinds_of(query@, names) =~= kinds@);
                    return order_matches(&kinds);
                }
                let artist = &self.library.artists[self.selected_artist];
                assert(self@.artists[self.selected_artist as int] == artist@);
                let mut k: usize = 0;
                while k < artist.songs.len()
                    invariant
                        names == artist@.songs.map_values(
                            |x: crate::library::SongView| x.title,
                        ),
                        k <= artist.songs@.len(),
                        kinds@.len() == k,
                        forall|i: int|
                            0 <= i < k ==> #[trigger] kinds@[i] == crate::search::match_of(
                                query@,
                                names[i],
                            ),
                    decreases artist.songs.len() - k,
                {
                    assert(names[k as int] == artist.songs@[k as int].title@);
                    kinds.push(match_kind(query, artist.songs[k].title.as_str()));
                    k = k + 1;
                }
            },
        }
        assert(crate::search::kinds_of(query@, names) =~= kinds@);
        order_matches(&kinds)
    }

    fn set_search_selection(&mut self, idx: usize)
        ensures
            final(self)@ == model::search_selected(old(self)@, idx),
    {
        match self.search.focus {
            Focus::Artists => {
                self.selected_artist = idx;
                self.selected_song = 0;
            },
            Focus::Songs => {
                self.selected_song = idx;
            },
        }
    }

    /// Recomputes matches for the current search input against the pane the search started in,
    /// and jumps that pane's selection to the first match.
    fn update_search(&mut self)
        ensures
            final(self)@ == model::search_typed(old(self)@, old(self)@.search_input),
    {
        self.search.matches = self.matching_indices(self.search.focus, self.search_input.as_str());
        self.search.match_pos = 0;
        if self.search.matches.len() > 0 {
            let best: usize = self.search.matches[0];
            self.set_search_selection(best);
        }
    }

    /// Cycles to the next (`delta = 1`) or previous (`delta = -1`) match from the last search,
    /// wrapping around, and re-focuses the pane that search was run against.
    fn jump_search(&mut self, forward: bool)
        requires
            wf(old(self)@),
        ensures
            final(self)@ == model::search_jumped(
                old(self)@,
                if forward {
                    1
                } else {
                    -1
                },
            ),
    {
        let len: usize = self.search.matches.len();
        if len == 0 {
            return;
        }
        let pos: usize = self.search.match_pos;
        let next: usize = if forward {
            if pos + 1 == len {
                0
            } else {
                pos + 1
            }
        } else {
            if pos == 0 {
                len - 1
            } else {
                pos - 1
            }
        };
        proof {
            let delta: int = if forward {
                1
            } else {
                -1
            };
            model::lemma_wrap(pos as int, delta, len as int);
        }
        self.search.match_pos = next;
        self.focus = self.search.focus;
        let idx: usize = self.search.matches[next];
        self.set_search_selection(idx);
        self.report_search_status();
    }

    fn execute_command(&mut self) -> (r: Vec<Effect>)
        ensures
            (final(self)@, views(r@)) == model::command_executed(old(self)@),
    {
        let input = trim(self.command_input.as_str());
        self.command_input = String::new();
        self.mode = Mode::Normal;
        if input.as_str().is_empty() {
            return no_effects();
        }
        let (cmd, rest) = split_word(input.as_str());
        if same_text(cmd.as_str(), "add") || same_text(cmd.as_str(), "a") {
            if rest.as_str().is_empty() {
                self.set_error("add requires a path argument".to_owned());
                no_effects()
            } else {
                one_effect(Effect::Import(rest))
            }
        } else if same_text(cmd.as_str(), "clear") {
            self.queue.places = VecDeque::new();
            self.selected_artist = 0;
            self.selected_song = 0;
            let mut r = one_effect(Effect::Send(PlayerCommand::Stop));
            let ghost first = r@;
            r.push(Effect::ClearDatabase);
            assert(views(r@) =~= views(first).push(EffectView::ClearDatabase));
            assert(views(r@) =~= seq![
                EffectView::Send(crate::player::CommandView::Stop),
                EffectView::ClearDatabase,
            ]);
            r
        } else if same_text(cmd.as_str(), "quit") {
            self.should_quit = true;
            no_effects()
        } else {
            let text = "unknown command: ".to_owned().concat(cmd.as_str());
            self.set_error(text);
            no_effects()
        }
    }

    /// A browser over the library that was loaded from the database, or an empty one that shows why
    /// it could not be loaded.
    pub fn new(loaded: Result<Vec<StoredSong>, DbError>) -> (r: App)
        requires
            loaded is Ok ==> loaded->Ok_0@.len() <= isize::MAX,
        ensures
            wf(r@),
            match loaded {
                Ok(rows) => model::reloaded_from(model::initial(), views(rows@), r@),
                Err(e) => r@ == model::with_error(model::initial(), e.message@),
            },
    {
        let mut app = App {
            library: Library::default(),
            focus: Focus::Artists,
            mode: Mode::Normal,
            selected_artist: 0,
            selected_song: 0,
            command_input: String::new(),
            search_input: String::new(),
            search: SearchState {
                matches: Vec::new(),
                match_pos: 0,
                focus: Focus::Artists,
                origin: (0, 0),
            },
            status_message: None,
            quit_prompted: false,
            should_quit: false,
            queue: PlayQueue { places: VecDeque::new() },
        };
        assert(app@ =~= model::initial());
        if let Err(e) = app.reload_library(loaded) {
            app.set_error(e.message);
        }
        app
    }

    /// Replaces the library by what the database holds. This is the single function used to
    /// populate the in-memory library, whether at startup or after `add`/`clear` mutate the
    /// database, so the database is always the one source of truth for library contents.
    fn reload_library(&mut self, loaded: Result<Vec<StoredSong>, DbError>) -> (r: Result<
        (),
        DbError,
    >)
        requires
            wf(old(self)@),
            loaded is Ok ==> loaded->Ok_0@.len() <= isize::MAX,
        ensures
            wf(final(self)@),
            match loaded {
                Ok(rows) => r is Ok && model::reloaded_from(
                    old(self)@,
                    views(rows@),
                    final(self)@,
                ),
                Err(e) => r == Err::<(), DbError>(e) && final(self)@ == old(self)@,
            },
    {
        match loaded {
            Ok(rows) => {
                let ghost before = self@;
                let ghost stored = views(rows@);
                self.library = load_library(rows);
                // Indices captured by a previous search may no longer point at the same items.
                self.search.matches = Vec::new();
                proof {
                    assert(self@ =~= model::reloaded(before, self@.artists));
                    model::reloading_keeps_wf(before, stored, self@);
                }
                Ok(())
            },
            Err(e) => Err(e),
        }
    }

    /// Pulls any pending error out of the player's status and surfaces it in the command pane, so
    /// playback failures on the worker thread reach the user. Also picks up natural end-of-track so
    /// the queue can advance.
    pub fn sync_player_status(&mut self, status: &mut PlayerStatus) -> (r: Vec<Effect>)
        requires
            wf(old(self)@),
        ensures
            wf(final(self)@),
            (final(self)@, views(r@)) == model::player_synced(
                old(self)@,
                old(status)@.error,
                old(status)@.just_finished,
            ),
            final(status)@ == (StatusView {
                error: None,
                just_finished: false,
                ..old(status)@
            }),
    {
        proof {
            model::reports_keep_wf(self@, status@.error, status@.just_finished);
        }
        let (error, finished) = status.take_events();
        if let Some(text) = error {
            self.status_message = Some(StatusMessage { text, is_error: true });
        }
        if finished {
            self.play_next_in_queue()
        } else {
            no_effects()
        }
    }

    /// Takes a key. What the player has loaded decides what some keys do.
    pub fn handle_key(&mut self, code: KeyCode, status: &PlayerStatus) -> (r: Vec<Effect>)
        requires
            wf(old(self)@),
            model::key_can_move(old(self)@, code, status@.current),
        ensures
            wf(final(self)@),
            (final(self)@, views(r@)) == model::key_pressed(
                old(self)@,
                code,
                status@.current,
            ),
    {
        proof {
            model::keys_keep_wf(self@, code, status@.current);
        }
        match self.mode {
            Mode::Command => self.handle_command_key(code),
            Mode::Search => {
                self.handle_search_key(code);
                no_effects()
            },
            Mode::Normal => self.handle_normal_key(code, status),
        }
    }

    fn handle_command_key(&mut self, code: KeyCode) -> (r: Vec<Effect>)
        ensures
            (final(self)@, views(r@)) == model::command_key(old(self)@, code),
    {
        match code {
            KeyCode::Enter => self.execute_command(),
            KeyCode::Esc => {
                self.command_input = String::new();
                self.mode = Mode::Normal;
                no_effects()
            },
            KeyCode::Backspace => {
                self.command_input.pop();
                no_effects()
            },
            KeyCode::Char(c) => {
                self.command_input.push(c);
                no_effects()
            },
            _ => no_effects(),
        }
    }

    fn handle_search_key(&mut self, code: KeyCode)
        requires
            wf(old(self)@),
        ensures
            final(self)@ == model::search_key(old(self)@, code),
    {
        match code {
            KeyCode::Enter => self.finish_search(),
            KeyCode::Esc => self.cancel_search(),
            KeyCode::Backspace => {
                self.search_input.pop();
                self.update_search();
            },
            KeyCode::Char(c) => {
                self.search_input.push(c);
                self.update_search();
            },
            _ => {},
        }
    }

    fn handle_normal_key(&mut self, code: KeyCode, status: &PlayerStatus) -> (r: Vec<Effect>)
        requires
            wf(old(self)@),
            old(self)@.mode is Normal,
            model::key_can_move(old(self)@, code, status@.current),
        ensures
            (final(self)@, views(r@)) == model::normal_key(old(self)@, code, status@.current),
    {
        if code == KeyCode::Esc {
            if !self.command_input.as_str().is_empty() {
                self.command_input = String::new();
            } else if self.quit_prompted {
                self.should_quit = true;
            } else {
                self.set_error("Really quit? (esc again to quit)".to_owned());
                self.quit_prompted = true;
            }
            return no_effects();
        }
        let effects = self.handle_browse_key(code, status);
        self.quit_prompted = false;
        if !matches!(code, KeyCode::Char('n') | KeyCode::Char('N')) {
            self.set_info("".to_owned());
        }
        effects
    }

    fn handle_browse_key(&mut self, code: KeyCode, status: &PlayerStatus) -> (r: Vec<Effect>)
        requires
            wf(old(self)@),
            old(self)@.mode is Normal,
            model::key_can_move(old(self)@, code, status@.current),
        ensures
            (final(self)@, views(r@)) == model::browse_key(old(self)@, code, status@.current),
    {
        match code {
            KeyCode::Char('j') => self.move_selection(1),
            KeyCode::Char('k') => self.move_selection(-1),
            KeyCode::Char('g') | KeyCode::Home => self.move_to_start(),
            KeyCode::Char('G') | KeyCode::End => self.move_to_end(),
            KeyCode::Char('h') => {
                self.focus = Focus::Artists;
            },
            KeyCode::Char('l') => {
                self.focus = Focus::Songs;
            },
            KeyCode::Char('z') => {
                return self.play_relative(status, -1);
            },
            KeyCode::Char('x') => {
                return one_effect(Effect::Send(PlayerCommand::Restart));
            },
            KeyCode::Char('c') => {
                return self.toggle_play_pause(status);
            },
            KeyCode::Char('v') => {
                return self.play_relative(status, 1);
            },
            KeyCode::Up => {
                return one_effect(Effect::Send(PlayerCommand::AdjustVolume(VOLUME_STEP)));
            },
            KeyCode::Down => {
                return one_effect(Effect::Send(PlayerCommand::AdjustVolume(-VOLUME_STEP)));
            },
            KeyCode::Enter => {
                return self.play_selected();
            },
            KeyCode::Char(':') => {
                self.command_input = String::new();
                self.mode = Mode::Command;
            },
            KeyCode::Char('/') => self.start_search(),
            KeyCode::Char('n') => self.jump_search(true),
            KeyCode::Char('N') => self.jump_search(false),
            _ => {},
        }
        no_effects()
    }

    /// Takes the outcome of the import that [`Effect::Import`] asked for.
    pub fn import_finished(&mut self, path: &str, outcome: ImportOutcome)
        requires
            wf(old(self)@),
            outcome is Stored && outcome->loaded is Ok ==> outcome->loaded->Ok_0@.len()
                <= isize::MAX,
        ensures
            wf(final(self)@),
            match outcome {
                ImportOutcome::ScanFailed(e) => final(self)@ == model::with_error(
                    old(self)@,
                    e.message@,
                ),
                ImportOutcome::StoreFailed(e) => final(self)@ == model::with_error(
                    old(self)@,
                    e.message@,
                ),
                ImportOutcome::Stored { count, loaded } => match loaded {
                    Err(e) => final(self)@ == model::with_error(old(self)@, e.message@),
                    Ok(rows) => model::reloaded_from(
                        model::with_info(
                            old(self)@,
                            "Imported "@ + decimal(count as nat) + " song(s) from "@ + path@,
                        ),
                        views(rows@),
                        final(self)@,
                    ),
                },
            },
    {
        match outcome {
            ImportOutcome::ScanFailed(e) => self.set_error(e.message),
            ImportOutcome::StoreFailed(e) => self.set_error(e.message),
            ImportOutcome::Stored { count, loaded } => match self.reload_library(loaded) {
                Ok(_) => {
                    let songs = decimal_text(count as u64);
                    let text = "Imported ".to_owned().concat(songs.as_str()).concat(
                        " song(s) from ",
                    ).concat(path);
                    self.set_info(text);
                },
                Err(e) => self.set_error(e.message),
            },
        }
    }

    /// Takes the outcome of the deletion that [`Effect::ClearDatabase`] asked for: what is stored
    /// afterwards, or why it could not be deleted or loaded.
    pub fn clear_finished(&mut self, outcome: Result<Vec<StoredSong>, DbError>)
        requires
            wf(old(self)@),
            outcome is Ok ==> outcome->Ok_0@.len() <= isize::MAX,
        ensures
            wf(final(self)@),
            match outcome {
                Err(e) => final(self)@ == model::with_error(old(self)@, e.message@),
                Ok(rows) => model::reloaded_from(
                    model::with_info(old(self)@, "Library cleared."@),
                    views(rows@),
                    final(self)@,
                ),
            },
    {
        match self.reload_library(outcome) {
            Ok(_) => self.set_info("Library cleared.".to_owned()),
            Err(e) => self.set_error(e.message),
        }
    }

    /// The names in the artists pane and which of them is selected.
    pub fn artist_rows(&self) -> (r: (Vec<String>, Option<usize>))
        ensures
            views(r.0@) == model::names_in(self@, Focus::Artists),
            r.1 == (if self@.artists.len() > 0 {
                Some(self@.selected_artist)
            } else {
                None
            }),
    {
        let ghost names = model::names_in(self@, Focus::Artists);
        let mut rows: Vec<String> = Vec::new();
        let mut k: usize = 0;
        while k < self.library.artists.len()
            invariant
                names == model::names_in(self@, Focus::Artists),
                k <= self.library.artists@.len(),
                rows@.len() == k,
                forall|i: int| 0 <= i < k ==> (#[trigger] rows@[i])@ == names[i],
            decreases self.library.artists.len() - k,
        {
            assert(names[k as int] == self.library.artists@[k as int].name@);
            rows.push(self.library.artists[k].name.clone());
            k = k + 1;
        }
        assert(views(rows@) =~= names);
        let selected: Option<usize> = if self.library.artists.len() > 0 {
            Some(self.selected_artist)
        } else {
            None
        };
        (rows, selected)
    }

    /// Tells whether [`App::song_rows`] can be called.
    pub fn can_show_songs(&self, width: u16) -> (r: bool)
        ensures
            r == ui::can_show(model::shown_songs(self@), width),
    {
        if self.selected_artist >= self.library.artists.len() {
            return true;
        }
        let artist = &self.library.artists[self.selected_artist];
        assert(self@.artists[self.selected_artist as int] == artist@);
        ui::can_show_songs(&artist.songs, width)
    }

    /// The rows in the songs pane and which of them is the selected song's.
    pub fn song_rows(&self, status: &PlayerStatus, width: u16) -> (r: (Vec<Row>, Option<usize>))
        requires
            ui::can_show(model::shown_songs(self@), width),
        ensures
            views(r.0@) == ui::rows_of(
                model::shown_songs(self@),
                self@.selected_artist,
                status@.current,
                width,
            ),
            ui::opt_row(r.1) == ui::selected_row_of(
                model::shown_songs(self@),
                self@.selected_artist,
                status@.current,
                width,
                self@.selected_song,
            ),
    {
        if self.selected_artist >= self.library.artists.len() {
            let rows: Vec<Row> = Vec::new();
            assert(views(rows@) =~= Seq::empty());
            return (rows, None);
        }
        let artist = &self.library.artists[self.selected_artist];
        assert(self@.artists[self.selected_artist as int] == artist@);
        ui::song_rows(
            &artist.songs,
            self.selected_artist,
            self.selected_song,
            &status.current,
            width,
        )
    }

    /// The line at the bottom.
    pub fn command_line(&self) -> (r: CommandLine)
        ensures
            r@ == ui::command_line_of(self@),
    {
        match self.mode {
            Mode::Command => ui::input_line(":", self.command_input.as_str()),
            Mode::Search => ui::input_line("/", self.search_input.as_str()),
            Mode::Normal => match &self.status_message {
                Some(message) => CommandLine {
                    text: message.text.clone(),
                    tone: if message.is_error {
                        Tone::Error
                    } else {
                        Tone::Plain
                    },
                    cursor: None,
                },
                None => CommandLine {
                    text:
                        "Press : to enter commands, / to search, d to delete, <esc> to quit.".to_owned(),
                    tone: Tone::Hint,
                    cursor: None,
                },
            },
        }
    }
}

} // verus!
