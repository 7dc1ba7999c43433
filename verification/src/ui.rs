//! The text of each row on screen.

use vstd::prelude::*;
use vstd::utf8::{decode_utf8, encode_utf8, is_ascii_chars, is_char_boundary};

use crate::app::Mode;
use crate::library::{same_album, Song, SongView};
use crate::model::AppView;
use crate::order::views;
use crate::player::{opt_now, NowPlaying, NowPlayingView, PlayerStatus, StatusView};
use crate::text::{
    all_digits, decimal, decimal_text, pad_left, padded_left, padded_numbers_read_back, repeat_char,
    repeated, value_of,
};
use crate::time::Duration;

verus! {

/// Columns of a song's row that the title leaves to track number, bitrate and time.
pub const SONG_BUFFER: u16 = 25;

/// Columns of the line about the playing song that the title leaves to everything else.
pub const NOW_PLAYING_BUFFER: u16 = 50;

/// Minutes and seconds, with at least two digits each.
pub open spec fn clock(d: Duration) -> Seq<char> {
    padded_left(decimal((d.secs / 60) as nat), '0', 2) + ":"@ + padded_left(
        decimal((d.secs % 60) as nat),
        '0',
        2,
    )
}

/// Formats a span of time as minutes and seconds.
pub fn format_duration(d: Duration) -> (r: String)
    ensures
        r@ == clock(d),
{
    let total_secs: u64 = d.as_secs();
    let minutes = decimal_text(total_secs / 60);
    let seconds = decimal_text(total_secs % 60);
    pad_left(minutes.as_str(), '0', 2).concat(":").concat(
        pad_left(seconds.as_str(), '0', 2).as_str(),
    )
}

/// How many bytes of a title are shown in a pane of the given width, of which `buffer_area` columns
/// are taken. The difference wraps around, so that a pane narrower than that shows whole titles.
pub open spec fn room(width: u16, buffer_area: u16) -> int {
    if buffer_area <= width {
        width - buffer_area
    } else {
        width - buffer_area + 0x1_0000
    }
}

/// Whether a title is short enough for its column, or can be cut there between two characters.
pub open spec fn can_format(title: Seq<char>, width: u16, buffer_area: u16) -> bool {
    encode_utf8(title).len() > room(width, buffer_area) ==> is_char_boundary(
        encode_utf8(title),
        room(width, buffer_area),
    )
}

/// A title in a column of so many bytes: what does not fit gives way to an ellipsis.
pub open spec fn formatted(title: Seq<char>, room: int) -> Seq<char> {
    if encode_utf8(title).len() > room {
        decode_utf8(encode_utf8(title).subrange(0, room)) + "…"@
    } else {
        title
    }
}

/// Tells whether [`format_title`] can be called.
pub fn can_format_title(title: &str, width: u16, buffer_area: u16) -> (r: bool)
    ensures
        r == can_format(title@, width, buffer_area),
{
    let max_len: usize = width.wrapping_sub(buffer_area) as usize;
    title.as_bytes().len() <= max_len || title.is_char_boundary(max_len)
}

/// Shortens a title that is longer than its column.
pub fn format_title(title: String, width: u16, buffer_area: u16) -> (r: String)
    requires
        can_format(title@, width, buffer_area),
    ensures
        r@ == formatted(title@, room(width, buffer_area)),
{
    let max_len: usize = width.wrapping_sub(buffer_area) as usize;
    if title.as_str().as_bytes().len() > max_len {
        let (kept, _) = title.as_str().split_at(max_len);
        proof {
            vstd::utf8::encode_utf8_decode_utf8(kept@);
        }
        kept.to_owned().concat("…")
    } else {
        title
    }
}

/// A row of the song list.
#[derive(Debug)]
pub enum Row {
    /// The heading above the songs of an album.
    Album(String),
    Song { text: String, is_playing: bool },
}

/// What a row holds.
pub enum RowView {
    Album(Seq<char>),
    Song { text: Seq<char>, is_playing: bool },
}

impl View for Row {
    type V = RowView;

    open spec fn view(&self) -> RowView {
        match *self {
            Row::Album(text) => RowView::Album(text@),
            Row::Song { text, is_playing } => RowView::Song { text: text@, is_playing },
        }
    }
}

/// The heading of a song's album: its name and, where it is known, its year.
pub open spec fn heading(s: SongView) -> Seq<char> {
    match s.year {
        Some(year) => s.album + " ("@ + decimal(year as nat) + ")"@,
        None => s.album,
    }
}

fn album_heading(song: &Song) -> (r: String)
    ensures
        r@ == heading(song@),
{
    match song.year {
        Some(year) => {
            let digits = decimal_text(year as u64);
            song.album.clone().concat(" (").concat(digits.as_str()).concat(")")
        },
        None => song.album.clone(),
    }
}

/// A track number as it is shown, in three characters or more.
pub open spec fn track_label(track_number: Option<u32>) -> Seq<char> {
    match track_number {
        Some(t) => padded_left(decimal(t as nat), '0', 2) + "."@,
        None => "-- "@,
    }
}

/// A bitrate as it is shown.
pub open spec fn bitrate_label(bitrate: Option<u32>) -> Seq<char> {
    match bitrate {
        Some(kbps) => decimal(kbps as nat) + " kbps"@,
        None => "-- kbps"@,
    }
}

/// The left part of a song's row.
pub open spec fn left_part(s: SongView, is_playing: bool, width: u16) -> Seq<char> {
    let marker = if is_playing {
        "▶ "@
    } else {
        "  "@
    };
    marker + track_label(s.track_number) + " "@ + formatted(s.title, room(width, SONG_BUFFER))
}

/// The right part of a song's row.
pub open spec fn right_part(s: SongView, bitrate: Option<u32>) -> Seq<char> {
    bitrate_label(bitrate) + " "@ + padded_left(clock(s.duration), ' ', 5)
}

/// How many blanks stand between two parts of a row in a pane of the given width, whose border
/// takes one column on each side. There is always at least one.
pub open spec fn gap(left: nat, right: nat, width: u16) -> nat {
    if left + right + 3 <= width {
        (width - 2 - left - right) as nat
    } else {
        1
    }
}

/// A song's row: its parts pushed to either side of the pane.
pub open spec fn song_text(
    s: SongView,
    bitrate: Option<u32>,
    is_playing: bool,
    width: u16,
) -> Seq<char> {
    let left = left_part(s, is_playing, width);
    let right = right_part(s, bitrate);
    left + repeated(' ', gap(left.len(), right.len(), width)) + right
}

/// Writes a song's row.
pub fn song_line(song: &Song, bitrate: Option<u32>, is_playing: bool, width: u16) -> (r: String)
    requires
        can_format(song@.title, width, SONG_BUFFER),
    ensures
        r@ == song_text(song@, bitrate, is_playing, width),
{
    let track = match song.track_number {
        Some(t) => pad_left(decimal_text(t as u64).as_str(), '0', 2).concat("."),
        None => "-- ".to_owned(),
    };
    let title = format_title(song.title.clone(), width, SONG_BUFFER);
    let marker = if is_playing {
        "▶ "
    } else {
        "  "
    };
    let left = marker.to_owned().concat(track.as_str()).concat(" ").concat(title.as_str());
    let rate = match bitrate {
        Some(kbps) => decimal_text(kbps as u64).concat(" kbps"),
        None => "-- kbps".to_owned(),
    };
    let time = pad_left(format_duration(song.duration).as_str(), ' ', 5);
    let right = rate.concat(" ").concat(time.as_str());
    // The border consumes one column on each side of the list.
    let inner_width: usize = width.saturating_sub(2) as usize;
    let free: usize = inner_width.saturating_sub(left.as_str().unicode_len()).saturating_sub(
        right.as_str().unicode_len(),
    );
    let padding: usize = if free < 1 {
        1
    } else {
        free
    };
    left.concat(repeat_char(' ', padding).as_str()).concat(right.as_str())
}

/// Whether the song at this place is the one that is loaded.
pub open spec fn plays(now: Option<NowPlayingView>, artist_idx: usize, song_idx: int) -> bool {
    now is Some && now->0.artist_idx == artist_idx && now->0.song_idx == song_idx
}

/// Whether song `k` is the first of a run of songs of one album.
pub open spec fn starts_album(songs: Seq<SongView>, k: int) -> bool {
    k == 0 || !same_album(songs[k - 1], songs[k])
}

/// The rows of the first `count` songs: a heading wherever another album begins, and one row for
/// each song.
pub open spec fn rows_upto(
    songs: Seq<SongView>,
    artist_idx: usize,
    now: Option<NowPlayingView>,
    width: u16,
    count: nat,
) -> Seq<RowView>
    decreases count,
{
    if count == 0 {
        Seq::empty()
    } else {
        let k = count - 1;
        let before = rows_upto(songs, artist_idx, now, width, k as nat);
        let headed = if starts_album(songs, k) {
            before.push(RowView::Album(heading(songs[k])))
        } else {
            before
        };
        let is_playing = plays(now, artist_idx, k);
        headed.push(
            RowView::Song { text: song_text(songs[k], None, is_playing, width), is_playing },
        )
    }
}

/// The rows of an artist's songs.
pub open spec fn rows_of(
    songs: Seq<SongView>,
    artist_idx: usize,
    now: Option<NowPlayingView>,
    width: u16,
) -> Seq<RowView> {
    rows_upto(songs, artist_idx, now, width, songs.len())
}

/// A row number.
pub open spec fn opt_row(row: Option<usize>) -> Option<int> {
    match row {
        Some(n) => Some(n as int),
        None => None,
    }
}

/// Which row is the selected song's; none if there is no such song.
pub open spec fn selected_row_of(
    songs: Seq<SongView>,
    artist_idx: usize,
    now: Option<NowPlayingView>,
    width: u16,
    selected: usize,
) -> Option<int> {
    if selected < songs.len() {
        Some(rows_upto(songs, artist_idx, now, width, (selected + 1) as nat).len() - 1)
    } else {
        None
    }
}

/// Whether every title can be shown in a pane of this width.
pub open spec fn can_show(songs: Seq<SongView>, width: u16) -> bool {
    forall|k: int|
        0 <= k < songs.len() ==> can_format((#[trigger] songs[k]).title, width, SONG_BUFFER)
}

/// Tells whether [`song_rows`] can be called.
pub fn can_show_songs(songs: &Vec<Song>, width: u16) -> (r: bool)
    ensures
        r == can_show(views(songs@), width),
{
    let ghost all = views(songs@);
    let mut k: usize = 0;
    while k < songs.len()
        invariant
            k <= songs@.len(),
            all == views(songs@),
            forall|i: int|
                0 <= i < k ==> can_format((#[trigger] all[i]).title, width, SONG_BUFFER),
        decreases songs.len() - k,
    {
        assert(all[k as int] == songs@[k as int]@);
        if !can_format_title(songs[k].title.as_str(), width, SONG_BUFFER) {
            return false;
        }
        k = k + 1;
    }
    true
}

/// Lays out an artist's songs. Songs are sorted by album, so album boundaries are just runs of
/// equal album and year; headings are inserted inline, which shifts the selected song's row.
pub fn song_rows(
    songs: &Vec<Song>,
    artist_idx: usize,
    selected: usize,
    now: &Option<NowPlaying>,
    width: u16,
) -> (r: (Vec<Row>, Option<usize>))
    requires
        can_show(views(songs@), width),
    ensures
        views(r.0@) == rows_of(views(songs@), artist_idx, opt_now(*now), width),
        opt_row(r.1) == selected_row_of(views(songs@), artist_idx, opt_now(*now), width, selected),
{
    let ghost all = views(songs@);
    let ghost playing = opt_now(*now);
    let mut rows: Vec<Row> = Vec::new();
    let mut selected_row: Option<usize> = None;
    let mut k: usize = 0;
    assert(views(rows@) =~= rows_upto(all, artist_idx, playing, width, 0));
    while k < songs.len()
        invariant
            k <= songs@.len(),
            all == views(songs@),
            playing == opt_now(*now),
            can_show(all, width),
            views(rows@) == rows_upto(all, artist_idx, playing, width, k as nat),
            selected < k ==> opt_row(selected_row) == selected_row_of(
                all,
                artist_idx,
                playing,
                width,
                selected,
            ),
            selected >= k ==> selected_row is None,
        decreases songs.len() - k,
    {
        let ghost before = views(rows@);
        let song = &songs[k];
        assert(all[k as int] == song@);
        let begins = if k == 0 {
            true
        } else {
            assert(all[k - 1] == songs@[k - 1]@);
            !song.same_album_as(&songs[k - 1])
        };
        assert(begins == starts_album(all, k as int));
        if begins {
            rows.push(Row::Album(album_heading(song)));
            assert(views(rows@) =~= before.push(RowView::Album(heading(song@))));
        }
        if k == selected {
            selected_row = Some(rows.len());
        }
        let is_playing = match now {
            Some(np) => np.artist_idx == artist_idx && np.song_idx == k,
            None => false,
        };
        let ghost headed = views(rows@);
        let text = song_line(song, None, is_playing, width);
        let ghost last = RowView::Song { text: text@, is_playing };
        rows.push(Row::Song { text, is_playing });
        assert(views(rows@) =~= headed.push(last));
        k = k + 1;
    }
    (rows, selected_row)
}

/// The line about the playing song: what is said on the left, and what on the right.
pub open spec fn now_playing_text(s: StatusView, volume: Seq<char>, width: u16) -> (
    Seq<char>,
    Seq<char>,
) {
    match s.current {
        Some(now) => {
            let state = if s.is_paused {
                "Paused"@
            } else {
                "Playing"@
            };
            (
                "["@ + state + "] "@ + now.artist + " - "@ + formatted(
                    now.title,
                    room(width, NOW_PLAYING_BUFFER),
                ),
                clock(s.elapsed) + "/"@ + clock(now.duration) + "  Vol "@ + padded_left(
                    volume,
                    ' ',
                    4,
                ),
            )
        },
        None => ("Nothing playing."@, Seq::empty()),
    }
}

/// Whether the title of the playing song can be shown in a line of this width.
pub open spec fn can_show_current(s: StatusView, width: u16) -> bool {
    s.current is Some ==> can_format(s.current->0.title, width, NOW_PLAYING_BUFFER)
}

/// Tells whether [`now_playing_line`] can be called.
pub fn can_show_now_playing(status: &PlayerStatus, width: u16) -> (r: bool)
    ensures
        r == can_show_current(status@, width),
{
    match &status.current {
        Some(now) => can_format_title(now.title.as_str(), width, NOW_PLAYING_BUFFER),
        None => true,
    }
}

/// Writes the line about the playing song, with the volume as the caller has formatted it. The
/// last value is the number of columns that the right part takes.
pub fn now_playing_line(status: &PlayerStatus, volume: &str, width: u16) -> (r: (
    String,
    String,
    u16,
))
    requires
        can_show_current(status@, width),
    ensures
        (r.0@, r.1@) == now_playing_text(status@, volume@, width),
        r.2 == #[verifier::truncate] (r.1@.len() as u16),
{
    let (left, right) = match &status.current {
        Some(now) => {
            let title = format_title(now.title.clone(), width, NOW_PLAYING_BUFFER);
            let state = if status.is_paused {
                "Paused"
            } else {
                "Playing"
            };
            let left = "[".to_owned().concat(state).concat("] ").concat(
                now.artist.as_str(),
            ).concat(" - ").concat(title.as_str());
            let right = format_duration(status.elapsed).concat("/").concat(
                format_duration(now.duration).as_str(),
            ).concat("  Vol ").concat(pad_left(volume, ' ', 4).as_str());
            (left, right)
        },
        None => ("Nothing playing.".to_owned(), String::new()),
    };
    let columns: usize = right.as_str().unicode_len();
    (left, right, #[verifier::truncate] (columns as u16))
}

/// How a line is coloured.
#[derive(Debug, Clone, Copy, PartialEq, Eq, Structural)]
pub enum Tone {
    Plain,
    Error,
    Hint,
}

/// The line at the bottom.
#[derive(Debug)]
pub struct CommandLine {
    pub text: String,
    pub tone: Tone,
    /// How far the cursor stands from the left, if it is shown.
    pub cursor: Option<u16>,
}

/// What the line at the bottom holds.
#[verifier::ext_equal]
pub struct CommandLineView {
    pub text: Seq<char>,
    pub tone: Tone,
    pub cursor: Option<u16>,
}

impl View for CommandLine {
    type V = CommandLineView;

    open spec fn view(&self) -> CommandLineView {
        CommandLineView { text: self.text@, tone: self.tone, cursor: self.cursor }
    }
}

/// A line that is being typed: the cursor stands behind its last byte.
pub open spec fn typed_line(prompt: Seq<char>, input: Seq<char>) -> CommandLineView {
    let text = prompt + input;
    CommandLineView {
        text,
        tone: Tone::Plain,
        cursor: Some(#[verifier::truncate] (encode_utf8(text).len() as u16)),
    }
}

/// The line at the bottom: what is being typed, the last message, or how to begin.
pub open spec fn command_line_of(s: AppView) -> CommandLineView {
    match s.mode {
        Mode::Command => typed_line(":"@, s.command_input),
        Mode::Search => typed_line("/"@, s.search_input),
        Mode::Normal => match s.status_message {
            Some(m) => CommandLineView {
                text: m.text,
                tone: if m.is_error {
                    Tone::Error
                } else {
                    Tone::Plain
                },
                cursor: None,
            },
            None => CommandLineView {
                text: "Press : to enter commands, / to search, d to delete, <esc> to quit."@,
                tone: Tone::Hint,
                cursor: None,
            },
        },
    }
}

/// Writes a line that is being typed.
pub(crate) fn input_line(prompt: &str, input: &str) -> (r: CommandLine)
    ensures
        r@ == typed_line(prompt@, input@),
{
    let text = prompt.to_owned().concat(input);
    let bytes: usize = text.as_str().as_bytes().len();
    CommandLine { text, tone: Tone::Plain, cursor: Some(#[verifier::truncate] (bytes as u16)) }
}

/// A title that is cut keeps its beginning, which takes up all the room there is.
pub proof fn cut_titles_keep_their_beginning(title: Seq<char>, width: u16, buffer_area: u16)
    requires
        can_format(title, width, buffer_area),
        encode_utf8(title).len() > room(width, buffer_area),
    ensures
        ({
            let shown = formatted(title, room(width, buffer_area));
            let kept = shown.take(shown.len() - 1);
            &&& shown == kept + "…"@
            &&& kept.is_prefix_of(title)
            &&& encode_utf8(kept).len() == room(width, buffer_area)
        }),
{
    reveal_strlit("…");
    let bytes = encode_utf8(title);
    let room = room(width, buffer_area);
    let head = decode_utf8(bytes.subrange(0, room));
    let shown = formatted(title, room);
    vstd::utf8::encode_utf8_valid_utf8(title);
    vstd::utf8::encode_utf8_decode_utf8(title);
    vstd::utf8::valid_utf8_split(bytes, room);
    vstd::utf8::decode_utf8_split(bytes, room);
    vstd::utf8::decode_utf8_encode_utf8(bytes.subrange(0, room));
    assert(shown.take(shown.len() - 1) =~= head);
}

/// A title of ASCII characters can be cut anywhere, and keeps as many characters as there are
/// columns.
pub proof fn ascii_titles_are_cut_anywhere(title: Seq<char>, width: u16, buffer_area: u16)
    requires
        is_ascii_chars(title),
    ensures
        can_format(title, width, buffer_area),
        formatted(title, room(width, buffer_area)) == (if title.len() > room(width, buffer_area) {
            title.take(room(width, buffer_area)) + "…"@
        } else {
            title
        }),
{
    let room = room(width, buffer_area);
    let bytes = encode_utf8(title);
    vstd::utf8::is_ascii_chars_encode_utf8(title);
    vstd::utf8::encode_utf8_valid_utf8(title);
    if title.len() > room {
        let kept = title.take(room);
        assert(is_ascii_chars(kept));
        vstd::utf8::is_ascii_chars_encode_utf8(kept);
        vstd::utf8::encode_utf8_decode_utf8(kept);
        assert(encode_utf8(kept) =~= bytes.subrange(0, room)) by {
            assert forall|i: int| 0 <= i < room implies encode_utf8(kept)[i] == bytes[i] by {
                assert(kept[i] == title[i]);
            }
        }
        assert(title[room] as u8 == bytes[room]);
        assert(!vstd::utf8::is_continuation_byte(bytes[room]));
        vstd::utf8::is_char_boundary_iff_not_is_continuation_byte(bytes, room);
    }
}

/// Where it fits, a song's row fills the pane from border to border.
pub proof fn song_rows_fill_the_pane(
    s: SongView,
    bitrate: Option<u32>,
    is_playing: bool,
    width: u16,
)
    ensures
        ({
            let taken = left_part(s, is_playing, width).len() + right_part(s, bitrate).len();
            if taken + 3 <= width {
                song_text(s, bitrate, is_playing, width).len() == width - 2
            } else {
                song_text(s, bitrate, is_playing, width).len() == taken + 1
            }
        }),
{
}

/// The row of song `k`.
pub open spec fn row_of(
    songs: Seq<SongView>,
    artist_idx: usize,
    now: Option<NowPlayingView>,
    width: u16,
    k: nat,
) -> int {
    rows_upto(songs, artist_idx, now, width, k + 1).len() - 1
}

/// The rows of some songs begin with the rows of fewer.
proof fn lemma_rows_extend(
    songs: Seq<SongView>,
    artist_idx: usize,
    now: Option<NowPlayingView>,
    width: u16,
    fewer: nat,
    more: nat,
)
    requires
        fewer <= more,
    ensures
        rows_upto(songs, artist_idx, now, width, fewer).is_prefix_of(
            rows_upto(songs, artist_idx, now, width, more),
        ),
        rows_upto(songs, artist_idx, now, width, fewer).len() + (more - fewer) <= rows_upto(
            songs,
            artist_idx,
            now,
            width,
            more,
        ).len(),
    decreases more,
{
    if fewer < more {
        lemma_rows_extend(songs, artist_idx, now, width, fewer, (more - 1) as nat);
    }
}

/// Every song has a row of its own with its text, songs are listed in order, and the selected row
/// is that of the selected song.
pub proof fn every_song_has_a_row(
    songs: Seq<SongView>,
    artist_idx: usize,
    now: Option<NowPlayingView>,
    width: u16,
    k: nat,
    later: nat,
)
    requires
        k < songs.len(),
    ensures
        ({
            let rows = rows_of(songs, artist_idx, now, width);
            let row = row_of(songs, artist_idx, now, width, k);
            let is_playing = plays(now, artist_idx, k as int);
            &&& 0 <= row < rows.len()
            &&& rows[row] == (RowView::Song {
                text: song_text(songs[k as int], None, is_playing, width),
                is_playing,
            })
            &&& k < later < songs.len() ==> row < row_of(songs, artist_idx, now, width, later)
            &&& k <= usize::MAX ==> selected_row_of(songs, artist_idx, now, width, k as usize)
                == Some(row)
        }),
{
    let upto = rows_upto(songs, artist_idx, now, width, k + 1);
    lemma_rows_extend(songs, artist_idx, now, width, k + 1, songs.len());
    if k < later {
        lemma_rows_extend(songs, artist_idx, now, width, k + 1, later + 1);
    }
    assert(upto[upto.len() - 1] == rows_of(songs, artist_idx, now, width)[upto.len() - 1]);
}

/// The song whose row this is, or below whose heading it stands.
spec fn song_at(
    songs: Seq<SongView>,
    artist_idx: usize,
    now: Option<NowPlayingView>,
    width: u16,
    count: nat,
    row: int,
) -> int
    decreases count,
{
    if count == 0 {
        -1
    } else if row < rows_upto(songs, artist_idx, now, width, (count - 1) as nat).len() {
        song_at(songs, artist_idx, now, width, (count - 1) as nat, row)
    } else {
        count - 1
    }
}

proof fn lemma_song_at(
    songs: Seq<SongView>,
    artist_idx: usize,
    now: Option<NowPlayingView>,
    width: u16,
    count: nat,
    row: int,
)
    requires
        count <= songs.len(),
        0 <= row < rows_upto(songs, artist_idx, now, width, count).len(),
    ensures
        ({
            let k = song_at(songs, artist_idx, now, width, count, row);
            let rows = rows_upto(songs, artist_idx, now, width, count);
            &&& 0 <= k < count
            &&& row == row_of(songs, artist_idx, now, width, k as nat) || (row + 1 == row_of(
                songs,
                artist_idx,
                now,
                width,
                k as nat,
            ) && starts_album(songs, k) && rows[row] == RowView::Album(heading(songs[k])))
        }),
    decreases count,
{
    let before = rows_upto(songs, artist_idx, now, width, (count - 1) as nat);
    if row < before.len() {
        lemma_song_at(songs, artist_idx, now, width, (count - 1) as nat, row);
        lemma_rows_extend(songs, artist_idx, now, width, (count - 1) as nat, count);
        assert(before[row] == rows_upto(songs, artist_idx, now, width, count)[row]);
    }
}

/// There are no rows but those of songs and, right above the first song of each run of one album,
/// its heading.
pub proof fn rows_are_songs_and_headings(
    songs: Seq<SongView>,
    artist_idx: usize,
    now: Option<NowPlayingView>,
    width: u16,
    row: int,
)
    requires
        0 <= row < rows_of(songs, artist_idx, now, width).len(),
    ensures
        exists|k: nat|
            k < songs.len() && (row == #[trigger] row_of(songs, artist_idx, now, width, k) || (row
                + 1 == row_of(songs, artist_idx, now, width, k) && starts_album(songs, k as int)
                && rows_of(songs, artist_idx, now, width)[row] == RowView::Album(
                heading(songs[k as int]),
            ))),
{
    lemma_song_at(songs, artist_idx, now, width, songs.len(), row);
    let k = song_at(songs, artist_idx, now, width, songs.len(), row) as nat;
    assert(row_of(songs, artist_idx, now, width, k) >= row);
}

/// In a sorted list every album has one heading: a song right under a heading is on another album
/// than every song before it.
pub proof fn albums_are_headed_once(songs: Seq<SongView>, i: int, j: int)
    requires
        crate::order::sorted(songs, crate::order::order_of::<Song>()),
        0 <= i < j < songs.len(),
        starts_album(songs, j),
    ensures
        !same_album(songs[i], songs[j]),
{
    if same_album(songs[i], songs[j]) {
        crate::library::albums_are_contiguous(songs, i, j - 1, j);
    }
}

/// At most one row is marked as playing.
pub proof fn one_song_plays_at_most(
    songs: Seq<SongView>,
    artist_idx: usize,
    now: Option<NowPlayingView>,
    width: u16,
    one: int,
    other: int,
)
    requires
        0 <= one < rows_of(songs, artist_idx, now, width).len(),
        0 <= other < rows_of(songs, artist_idx, now, width).len(),
        rows_of(songs, artist_idx, now, width)[one] matches RowView::Song { is_playing, .. }
            && is_playing,
        rows_of(songs, artist_idx, now, width)[other] matches RowView::Song { is_playing, .. }
            && is_playing,
    ensures
        one == other,
{
    lemma_song_at(songs, artist_idx, now, width, songs.len(), one);
    lemma_song_at(songs, artist_idx, now, width, songs.len(), other);
    let k = song_at(songs, artist_idx, now, width, songs.len(), one) as nat;
    let l = song_at(songs, artist_idx, now, width, songs.len(), other) as nat;
    every_song_has_a_row(songs, artist_idx, now, width, k, l);
    every_song_has_a_row(songs, artist_idx, now, width, l, k);
}

/// A time reads back: two or more digits for the minutes, a colon and two digits for the seconds,
/// which are fewer than sixty. There are more digits than two for the minutes only where they are
/// needed.
pub proof fn clocks_read_back(d: Duration)
    ensures
        ({
            let text = clock(d);
            let n = text.len() as int;
            let (minutes, seconds) = (text.take(n - 3), text.skip(n - 2));
            &&& n >= 5
            &&& text[n - 3] == ':'
            &&& all_digits(minutes) && all_digits(seconds)
            &&& value_of(minutes) == d.secs / 60
            &&& value_of(seconds) == d.secs % 60
            &&& value_of(minutes) * 60 + value_of(seconds) == d.secs
            &&& d.secs < 6000 ==> n == 5
        }),
{
    reveal_strlit(":");
    let (m, s) = ((d.secs / 60) as nat, (d.secs % 60) as nat);
    padded_numbers_read_back(m, 2);
    padded_numbers_read_back(s, 2);
    let (left, right) = (padded_left(decimal(m), '0', 2), padded_left(decimal(s), '0', 2));
    let text = clock(d);
    assert(text.take(text.len() - 3) =~= left);
    assert(text.skip(text.len() - 2) =~= right);
}

/// A title has the columns that its pane leaves it. One that fits is shown whole, and whether a
/// longer one can be cut depends only on whether a character ends there.
pub proof fn titles_that_fit_are_whole(title: Seq<char>, width: u16, buffer_area: u16)
    ensures
        buffer_area <= width ==> room(width, buffer_area) == width - buffer_area,
        buffer_area > width ==> room(width, buffer_area) == 65536 + width - buffer_area,
        encode_utf8(title).len() <= room(width, buffer_area) ==> can_format(
            title,
            width,
            buffer_area,
        ) && formatted(title, room(width, buffer_area)) == title,
        encode_utf8(title).len() > room(width, buffer_area) ==> (can_format(
            title,
            width,
            buffer_area,
        ) <==> is_char_boundary(encode_utf8(title), room(width, buffer_area))),
{
}

/// A list can be shown if and only if each of its titles can.
pub proof fn lists_show_if_their_titles_do(songs: Seq<SongView>, width: u16)
    ensures
        can_show(songs, width) <==> forall|k: int|
            0 <= k < songs.len() ==> can_format((#[trigger] songs[k]).title, width, 25),
{
}

/// The number of a track with two digits or more and a dot, or two dashes and a blank without one.
pub open spec fn is_track_label(label: Seq<char>, track_number: Option<u32>) -> bool {
    &&& track_number is Some ==> {
        let digits = label.drop_last();
        &&& label.len() >= 3
        &&& label.last() == '.'
        &&& all_digits(digits)
        &&& value_of(digits) == track_number->0
        &&& track_number->0 < 100 ==> label.len() == 3
    }
    &&& track_number is None ==> label == seq!['-', '-', ' ']
}

/// A song's row begins with the marker if the song plays and with two blanks otherwise, the track
/// number and the title, and ends with the bitrate and the time. Between them are blanks, one at
/// least, and enough to fill the pane inside its border.
pub proof fn song_rows_read_back(s: SongView, bitrate: Option<u32>, is_playing: bool, width: u16)
    ensures
        ({
            let text = song_text(s, bitrate, is_playing, width);
            let label = track_label(s.track_number);
            let title = formatted(s.title, room(width, 25));
            let rate = if bitrate is Some {
                decimal(bitrate->0 as nat) + " kbps"@
            } else {
                "-- kbps"@
            };
            let left = (if is_playing {
                "▶ "@
            } else {
                "  "@
            }) + label + " "@ + title;
            let right = rate + " "@ + padded_left(clock(s.duration), ' ', 5);
            let blanks = text.len() - left.len() - right.len();
            &&& is_track_label(label, s.track_number)
            &&& blanks >= 1
            &&& text.take(left.len() as int) == left
            &&& text.skip(text.len() - right.len()) == right
            &&& forall|i: int| left.len() <= i < left.len() + blanks ==> #[trigger] text[i] == ' '
            &&& text.len() == width - 2 || (text.len() > width - 2 && blanks == 1)
        }),
{
    let text = song_text(s, bitrate, is_playing, width);
    let left = left_part(s, is_playing, width);
    let right = right_part(s, bitrate);
    assert(text.take(left.len() as int) =~= left);
    assert(text.skip(text.len() - right.len()) =~= right);
    reveal_strlit(".");
    reveal_strlit("-- ");
    let label = track_label(s.track_number);
    if s.track_number is Some {
        padded_numbers_read_back(s.track_number->0 as nat, 2);
        assert(label.drop_last() =~= padded_left(decimal(s.track_number->0 as nat), '0', 2));
    } else {
        assert(label =~= seq!['-', '-', ' ']);
    }
}

/// The heading of an album: its name, and its year in brackets where there is one.
pub open spec fn is_heading(text: Seq<char>, s: SongView) -> bool {
    &&& s.year is Some ==> text == s.album + " ("@ + decimal(s.year->0 as nat) + ")"@
    &&& s.year is None ==> text == s.album
}

/// Right above the first song, and above every song that is not on the album of the song before it,
/// be it for another name or another year, stands the heading of its album. Every other song
/// follows the song before it at once.
pub proof fn other_albums_have_headings(
    songs: Seq<SongView>,
    artist_idx: usize,
    now: Option<NowPlayingView>,
    width: u16,
    k: nat,
)
    requires
        k < songs.len(),
    ensures
        ({
            let rows = rows_of(songs, artist_idx, now, width);
            let row = row_of(songs, artist_idx, now, width, k);
            let above = if k == 0 {
                -1
            } else {
                row_of(songs, artist_idx, now, width, (k - 1) as nat)
            };
            if k == 0 || songs[k - 1].album != songs[k as int].album || songs[k - 1].year
                != songs[k as int].year {
                &&& row == above + 2
                &&& rows[row - 1] matches RowView::Album(text) && is_heading(text, songs[k as int])
            } else {
                row == above + 1
            }
        }),
{
    let upto = rows_upto(songs, artist_idx, now, width, k + 1);
    lemma_rows_extend(songs, artist_idx, now, width, k + 1, songs.len());
    let rows = rows_of(songs, artist_idx, now, width);
    let row = row_of(songs, artist_idx, now, width, k);
    assert(rows_upto(songs, artist_idx, now, width, 0).len() == 0);
    if row > 0 {
        assert(upto[row - 1] == rows[row - 1]);
    }
}

/// The nearest heading above a song is that of its own album: between them are only songs of that
/// album, one row each.
pub proof fn songs_stand_under_their_album(
    songs: Seq<SongView>,
    artist_idx: usize,
    now: Option<NowPlayingView>,
    width: u16,
    k: nat,
)
    requires
        k < songs.len(),
    ensures
        exists|j: nat|
            j <= k && row_of(songs, artist_idx, now, width, k) - (#[trigger] row_of(
                songs,
                artist_idx,
                now,
                width,
                j,
            )) == k - j && row_of(songs, artist_idx, now, width, j) >= 1 && (rows_of(
                songs,
                artist_idx,
                now,
                width,
            )[row_of(songs, artist_idx, now, width, j) - 1] matches RowView::Album(text)
                && is_heading(text, songs[k as int])),
    decreases k,
{
    other_albums_have_headings(songs, artist_idx, now, width, k);
    let rows = rows_of(songs, artist_idx, now, width);
    let row = row_of(songs, artist_idx, now, width, k);
    if k == 0 || songs[k - 1].album != songs[k as int].album || songs[k - 1].year
        != songs[k as int].year {
        if k > 0 {
            every_song_has_a_row(songs, artist_idx, now, width, (k - 1) as nat, k);
        }
        assert(row_of(songs, artist_idx, now, width, k) == row);
    } else {
        let p = (k - 1) as nat;
        songs_stand_under_their_album(songs, artist_idx, now, width, p);
        let j = choose|j: nat|
            j <= p && row_of(songs, artist_idx, now, width, p) - (#[trigger] row_of(
                songs,
                artist_idx,
                now,
                width,
                j,
            )) == p - j && row_of(songs, artist_idx, now, width, j) >= 1 && (rows_of(
                songs,
                artist_idx,
                now,
                width,
            )[row_of(songs, artist_idx, now, width, j) - 1] matches RowView::Album(text)
                && is_heading(text, songs[p as int]));
        assert(row_of(songs, artist_idx, now, width, j) >= 1);
    }
}

/// A song's row says that it plays if and only if the loaded song has its place in the library, and
/// the selected row is a song's row if and only if there is such a song.
pub proof fn loaded_and_selected_songs_are_marked(
    songs: Seq<SongView>,
    artist_idx: usize,
    now: Option<NowPlayingView>,
    width: u16,
    k: nat,
    selected: usize,
)
    requires
        k < songs.len() <= usize::MAX,
    ensures
        ({
            let rows = rows_of(songs, artist_idx, now, width);
            let row = rows[row_of(songs, artist_idx, now, width, k)];
            let loaded = now is Some && now->0.artist_idx == artist_idx && now->0.song_idx == k;
            &&& row matches RowView::Song { text, is_playing } && is_playing == loaded && text
                == song_text(songs[k as int], None, loaded, width)
            &&& selected >= songs.len() ==> selected_row_of(
                songs,
                artist_idx,
                now,
                width,
                selected,
            ) is None
            &&& selected < songs.len() ==> (selected_row_of(
                songs,
                artist_idx,
                now,
                width,
                selected,
            ) == Some(row_of(songs, artist_idx, now, width, k)) <==> selected == k)
        }),
{
    every_song_has_a_row(songs, artist_idx, now, width, k, selected as nat);
    if selected < songs.len() {
        every_song_has_a_row(songs, artist_idx, now, width, selected as nat, k);
    }
}

/// The line about the playing song tells its artist and title, whether it is paused, how far it has
/// come, how long it is and the volume; without a song it says so.
pub proof fn the_playing_song_is_told(s: StatusView, volume: Seq<char>, width: u16)
    ensures
        s.current is None ==> now_playing_text(s, volume, width) == (
            "Nothing playing."@,
            Seq::<char>::empty(),
        ),
        s.current is Some ==> {
            let now = s.current->0;
            let title = formatted(now.title, room(width, 50));
            let (left, right) = now_playing_text(s, volume, width);
            &&& s.is_paused ==> left == "["@ + "Paused"@ + "] "@ + now.artist + " - "@ + title
            &&& !s.is_paused ==> left == "["@ + "Playing"@ + "] "@ + now.artist + " - "@ + title
            &&& right == clock(s.elapsed) + "/"@ + clock(now.duration) + "  Vol "@ + padded_left(
                volume,
                ' ',
                4,
            )
        },
        can_show_current(s, width) <==> s.current is None || can_format(
            s.current->0.title,
            width,
            50,
        ),
{
}

/// The line at the bottom is what is typed, behind the character that began it and with the cursor
/// behind its last byte; or else the last message, an error marked as one; or else a hint.
pub proof fn the_bottom_line_tells_the_mode(s: AppView)
    ensures
        ({
            let line = command_line_of(s);
            let bytes = encode_utf8(line.text).len();
            &&& s.mode is Command ==> line.text == ":"@ + s.command_input && line.tone is Plain
            &&& s.mode is Search ==> line.text == "/"@ + s.search_input && line.tone is Plain
            &&& !(s.mode is Normal) ==> line.cursor is Some && (bytes <= u64::MAX ==> line.cursor->0
                == bytes % 65536)
            &&& s.mode is Normal ==> line.cursor is None
            &&& s.mode is Normal && s.status_message is Some ==> line.text
                == s.status_message->0.text && (line.tone is Error
                <==> s.status_message->0.is_error) && !(line.tone is Hint)
            &&& s.mode is Normal && s.status_message is None ==> line.tone is Hint && line.text
                == "Press : to enter commands, / to search, d to delete, <esc> to quit."@
        }),
{
    let bytes = encode_utf8(command_line_of(s).text).len();
    if bytes <= u64::MAX {
        let b = bytes as u64;
        assert((b as u16) as int == (b as int) % 65536) by (bit_vector);
    }
}

/// The model of a row and of the line at the bottom has each field in its place.
pub proof fn row_views_hold_the_fields(text: String, is_playing: bool, line: CommandLine)
    ensures
        Row::Album(text)@ == RowView::Album(text@),
        (Row::Song { text, is_playing })@ == (RowView::Song { text: text@, is_playing }),
        line@.text == line.text@,
        line@.tone == line.tone,
        line@.cursor == line.cursor,
        opt_row(None) is None,
        forall|n: usize| #[trigger] opt_row(Some(n)) == Some(n as int),
{
}

} // verus!
