//! The song library: artists in alphabetical order, each with its songs grouped by album.

use vstd::prelude::*;

use std::cmp::Ordering;

use crate::order::{order_of, stable_sort, stable_sort_of, views, Ranked};
use crate::text::{at_most, same_text, text_le, text_lt};
use crate::time::Duration;

verus! {

/// One song, as it is shown under its artist.
#[derive(Debug, Clone)]
pub struct Song {
    pub title: String,
    pub album: String,
    pub year: Option<u16>,
    pub track_number: Option<u32>,
    pub path: String,
    pub duration: Duration,
}

/// An artist with all of their songs.
#[derive(Debug, Clone)]
pub struct Artist {
    pub name: String,
    pub songs: Vec<Song>,
}

/// Everything that can be browsed and played.
#[derive(Debug)]
pub struct Library {
    pub artists: Vec<Artist>,
}

/// Why music files could not be found or read.
#[derive(Debug)]
pub struct LibraryError {
    pub message: String,
}

/// One song's full tag data in flat form, independent of how it's grouped for display. This is
/// the shape shared by both scanning and the database, so a `Library` is always built the same
/// way regardless of where the entries came from.
#[derive(Debug, Clone)]
pub struct LibraryEntry {
    pub path: String,
    pub artist: String,
    pub album: String,
    pub year: Option<u16>,
    pub track_number: Option<u32>,
    pub title: String,
    pub duration: Duration,
}

/// What a song holds.
pub struct SongView {
    pub title: Seq<char>,
    pub album: Seq<char>,
    pub year: Option<u16>,
    pub track_number: Option<u32>,
    pub path: Seq<char>,
    pub duration: Duration,
}

/// What an artist holds.
pub struct ArtistView {
    pub name: Seq<char>,
    pub songs: Seq<SongView>,
}

/// What an entry holds.
pub struct EntryView {
    pub path: Seq<char>,
    pub artist: Seq<char>,
    pub album: Seq<char>,
    pub year: Option<u16>,
    pub track_number: Option<u32>,
    pub title: Seq<char>,
    pub duration: Duration,
}

impl View for Song {
    type V = SongView;

    open spec fn view(&self) -> SongView {
        SongView {
            title: self.title@,
            album: self.album@,
            year: self.year,
            track_number: self.track_number,
            path: self.path@,
            duration: self.duration,
        }
    }
}

impl View for Artist {
    type V = ArtistView;

    open spec fn view(&self) -> ArtistView {
        ArtistView { name: self.name@, songs: views(self.songs@) }
    }
}

impl View for Library {
    type V = Seq<ArtistView>;

    open spec fn view(&self) -> Seq<ArtistView> {
        views(self.artists@)
    }
}

impl View for LibraryEntry {
    type V = EntryView;

    open spec fn view(&self) -> EntryView {
        EntryView {
            path: self.path@,
            artist: self.artist@,
            album: self.album@,
            year: self.year,
            track_number: self.track_number,
            title: self.title@,
            duration: self.duration,
        }
    }
}

/// Whether two songs are on the same album.
pub open spec fn same_album(a: SongView, b: SongView) -> bool {
    a.album == b.album && a.year == b.year
}

/// The order of albums: newest first, those without a year after all dated ones, and
/// alphabetically within one year or among those without.
pub open spec fn album_le(a: SongView, b: SongView) -> bool {
    match (a.year, b.year) {
        (Some(x), Some(y)) => x > y || (x == y && text_le(a.album, b.album)),
        (Some(_), None) => true,
        (None, Some(_)) => false,
        (None, None) => text_le(a.album, b.album),
    }
}

/// Where a song stands on its album; songs without a track number come last.
pub open spec fn track_key(s: SongView) -> u32 {
    match s.track_number {
        Some(n) => n,
        None => u32::MAX,
    }
}

/// The order of an artist's songs: by album, then by track number, then by title.
pub open spec fn song_le(a: SongView, b: SongView) -> bool {
    if same_album(a, b) {
        track_key(a) < track_key(b) || (track_key(a) == track_key(b) && text_le(a.title, b.title))
    } else {
        album_le(a, b)
    }
}

/// Any two albums are comparable, and two that come before each other are one.
pub proof fn album_le_total(a: SongView, b: SongView)
    ensures
        album_le(a, b) || album_le(b, a),
        album_le(a, b) && album_le(b, a) ==> same_album(a, b),
        same_album(a, b) ==> album_le(a, b),
{
    crate::text::text_le_total(a.album, b.album);
    if text_le(a.album, b.album) && text_le(b.album, a.album) {
        crate::text::text_le_antisymmetric(a.album, b.album);
    }
}

/// The order of albums is transitive.
pub proof fn album_le_transitive(a: SongView, b: SongView, c: SongView)
    requires
        album_le(a, b),
        album_le(b, c),
    ensures
        album_le(a, c),
{
    if text_le(a.album, b.album) && text_le(b.album, c.album) {
        crate::text::text_le_transitive(a.album, b.album, c.album);
    }
}

/// Orders songs by album: albums with a year sort newest-first, and any album missing a year
/// sorts after all dated albums, alphabetically among themselves.
pub fn album_order(a: &Song, b: &Song) -> (r: Ordering)
    ensures
        r == (if same_album(a@, b@) {
            Ordering::Equal
        } else if album_le(a@, b@) {
            Ordering::Less
        } else {
            Ordering::Greater
        }),
{
    let before = match (a.year, b.year) {
        (Some(x), Some(y)) => x > y || (x == y && at_most(a.album.as_str(), b.album.as_str())),
        (Some(_), None) => true,
        (None, Some(_)) => false,
        (None, None) => at_most(a.album.as_str(), b.album.as_str()),
    };
    let same_year = match (a.year, b.year) {
        (Some(x), Some(y)) => x == y,
        (None, None) => true,
        _ => false,
    };
    if same_year && same_text(a.album.as_str(), b.album.as_str()) {
        Ordering::Equal
    } else if before {
        Ordering::Less
    } else {
        Ordering::Greater
    }
}

impl Song {
    /// Whether another song is on the same album.
    pub(crate) fn same_album_as(&self, other: &Song) -> (r: bool)
        ensures
            r == same_album(self@, other@),
    {
        match album_order(self, other) {
            Ordering::Equal => true,
            _ => false,
        }
    }
}

impl Ranked for Song {
    open spec fn le(a: SongView, b: SongView) -> bool {
        song_le(a, b)
    }

    proof fn le_total(a: SongView, b: SongView) {
        album_le_total(a, b);
        crate::text::text_le_total(a.title, b.title);
    }

    proof fn le_transitive(a: SongView, b: SongView, c: SongView) {
        album_le_total(a, b);
        album_le_total(b, c);
        album_le_total(a, c);
        if album_le(a, b) && album_le(b, c) {
            album_le_transitive(a, b, c);
            if same_album(a, c) {
                album_le_total(c, a);
                album_le_transitive(c, a, b);
                album_le_total(b, a);
            }
        }
        if text_le(a.title, b.title) && text_le(b.title, c.title) {
            crate::text::text_le_transitive(a.title, b.title, c.title);
        }
    }

    fn may_precede(&self, other: &Song) -> (r: bool) {
        match album_order(self, other) {
            Ordering::Less => true,
            Ordering::Greater => false,
            Ordering::Equal => {
                let x: u32 = match self.track_number {
                    Some(n) => n,
                    None => u32::MAX,
                };
                let y: u32 = match other.track_number {
                    Some(n) => n,
                    None => u32::MAX,
                };
                x < y || (x == y && at_most(self.title.as_str(), other.title.as_str()))
            },
        }
    }
}

impl Ranked for Artist {
    open spec fn le(a: ArtistView, b: ArtistView) -> bool {
        text_le(a.name, b.name)
    }

    proof fn le_total(a: ArtistView, b: ArtistView) {
        crate::text::text_le_total(a.name, b.name);
    }

    proof fn le_transitive(a: ArtistView, b: ArtistView, c: ArtistView) {
        crate::text::text_le_transitive(a.name, b.name, c.name);
    }

    fn may_precede(&self, other: &Artist) -> (r: bool) {
        at_most(self.name.as_str(), other.name.as_str())
    }
}

/// The song that an entry describes.
pub open spec fn song_of(e: EntryView) -> SongView {
    SongView {
        title: e.title,
        album: e.album,
        year: e.year,
        track_number: e.track_number,
        path: e.path,
        duration: e.duration,
    }
}

/// Whether an entry is by the named artist.
pub open spec fn by_artist(name: Seq<char>) -> spec_fn(EntryView) -> bool {
    |e: EntryView| e.artist == name
}

/// The songs by one artist, in the order of the entries.
pub open spec fn songs_by(entries: Seq<EntryView>, name: Seq<char>) -> Seq<SongView> {
    entries.filter(by_artist(name)).map_values(|e: EntryView| song_of(e))
}

/// Artists come in strictly alphabetical order, so none is listed twice.
pub open spec fn artists_ascend(artists: Seq<ArtistView>) -> bool {
    forall|i: int, j: int|
        0 <= i < j < artists.len() ==> text_lt((#[trigger] artists[i]).name, (
        #[trigger] artists[j]).name)
}

/// Some entry is by the named artist.
pub open spec fn has_artist(entries: Seq<EntryView>, name: Seq<char>) -> bool {
    exists|k: int| 0 <= k < entries.len() && (#[trigger] entries[k]).artist == name
}

/// The named artist is listed.
pub open spec fn lists_artist(artists: Seq<ArtistView>, name: Seq<char>) -> bool {
    exists|i: int| 0 <= i < artists.len() && (#[trigger] artists[i]).name == name
}

/// The entries grouped for display: every artist of an entry once, in alphabetical order, each
/// with its songs and no others, in display order.
pub open spec fn is_library_of(artists: Seq<ArtistView>, entries: Seq<EntryView>) -> bool {
    &&& artists_ascend(artists)
    &&& forall|name: Seq<char>| #[trigger]
        lists_artist(artists, name) <==> has_artist(entries, name)
    &&& forall|i: int|
        0 <= i < artists.len() ==> stable_sort_of(
            (#[trigger] artists[i]).songs,
            songs_by(entries, artists[i].name),
            order_of::<Song>(),
        )
}

proof fn lemma_songs_by_push(entries: Seq<EntryView>, e: EntryView, name: Seq<char>)
    ensures
        songs_by(entries.push(e), name) == (if e.artist == name {
            songs_by(entries, name).push(song_of(e))
        } else {
            songs_by(entries, name)
        }),
{
    reveal(Seq::filter);
    assert(entries.push(e).drop_last() =~= entries);
    assert(songs_by(entries.push(e), name) =~= (if e.artist == name {
        songs_by(entries, name).push(song_of(e))
    } else {
        songs_by(entries, name)
    }));
}

/// Groups are kept apart by name, and each holds exactly its artist's songs.
spec fn groups_of(groups: Seq<ArtistView>, entries: Seq<EntryView>) -> bool {
    &&& forall|i: int, j: int|
        0 <= i < j < groups.len() ==> (#[trigger] groups[i]).name != (#[trigger] groups[j]).name
    &&& forall|name: Seq<char>| #[trigger] lists_artist(groups, name) <==> has_artist(entries, name)
    &&& forall|i: int|
        0 <= i < groups.len() ==> (#[trigger] groups[i]).songs == songs_by(entries, groups[i].name)
}

/// Adding an entry to the group of its artist, or to a new group if there is none, keeps the
/// groups in line with the entries.
proof fn lemma_groups_push(
    groups: Seq<ArtistView>,
    grown: Seq<ArtistView>,
    entries: Seq<EntryView>,
    e: EntryView,
    at: int,
)
    requires
        groups_of(groups, entries),
        0 <= at <= groups.len(),
        at < groups.len() ==> groups[at].name == e.artist && grown == groups.update(
            at,
            ArtistView { name: groups[at].name, songs: groups[at].songs.push(song_of(e)) },
        ),
        at == groups.len() ==> !lists_artist(groups, e.artist) && grown == groups.push(
            ArtistView { name: e.artist, songs: seq![song_of(e)] },
        ),
    ensures
        groups_of(grown, entries.push(e)),
{
    let more = entries.push(e);
    assert forall|name: Seq<char>| #[trigger] lists_artist(grown, name) <==> has_artist(
        more,
        name,
    ) by {
        if lists_artist(grown, name) {
            let i = choose|i: int| 0 <= i < grown.len() && (#[trigger] grown[i]).name == name;
            if i == at {
                assert(more[entries.len() as int].artist == name);
            } else {
                assert(groups[i].name == name);
                assert(lists_artist(groups, name));
                let k = choose|k: int|
                    0 <= k < entries.len() && (#[trigger] entries[k]).artist == name;
                assert(more[k].artist == name);
            }
        }
        if has_artist(more, name) {
            let k = choose|k: int| 0 <= k < more.len() && (#[trigger] more[k]).artist == name;
            if k == entries.len() {
                assert(grown[at].name == name);
            } else {
                assert(entries[k].artist == name);
                assert(has_artist(entries, name));
                assert(lists_artist(groups, name));
                let i = choose|i: int| 0 <= i < groups.len() && (#[trigger] groups[i]).name == name;
                assert(grown[i].name == name);
            }
        }
    }
    assert forall|i: int| 0 <= i < grown.len() implies (#[trigger] grown[i]).songs == songs_by(
        more,
        grown[i].name,
    ) by {
        lemma_songs_by_push(entries, e, grown[i].name);
        if i < groups.len() {
            assert(groups[i].songs == songs_by(entries, groups[i].name));
            if i != at {
                if groups[i].name == e.artist {
                    assert(lists_artist(groups, e.artist));
                }
            }
        } else {
            if has_artist(entries, e.artist) {
                assert(lists_artist(groups, e.artist));
            }
            lemma_no_songs(entries, e.artist);
            assert(seq![song_of(e)] =~= Seq::<SongView>::empty().push(song_of(e)));
        }
    }
    assert forall|i: int, j: int| 0 <= i < j < grown.len() implies (#[trigger] grown[i]).name != (
    #[trigger] grown[j]).name by {
        if j == groups.len() {
            if groups[i].name == e.artist {
                assert(lists_artist(groups, e.artist));
            }
        } else {
            assert(groups[i].name != groups[j].name);
        }
    }
}

/// An artist of no entry has no songs.
proof fn lemma_no_songs(entries: Seq<EntryView>, name: Seq<char>)
    requires
        !has_artist(entries, name),
    ensures
        songs_by(entries, name) == Seq::<SongView>::empty(),
    decreases entries.len(),
{
    reveal(Seq::filter);
    if entries.len() > 0 {
        let rest = entries.drop_last();
        assert(entries[entries.len() - 1].artist != name);
        if has_artist(rest, name) {
            let k = choose|k: int| 0 <= k < rest.len() && (#[trigger] rest[k]).artist == name;
            assert(entries[k].artist == name);
        }
        lemma_no_songs(rest, name);
        assert(entries =~= rest.push(entries.last()));
        lemma_songs_by_push(rest, entries.last(), name);
    } else {
        assert(songs_by(entries, name) =~= Seq::<SongView>::empty());
    }
}

/// Where the named artist is in a list of groups; its length if the artist is not there.
fn find_artist(artists: &Vec<Artist>, name: &str) -> (r: usize)
    ensures
        r <= artists@.len(),
        r < artists@.len() ==> artists@[r as int].name@ == name@,
        r == artists@.len() ==> !lists_artist(views(artists@), name@),
{
    let mut k: usize = 0;
    while k < artists.len()
        invariant
            k <= artists@.len(),
            forall|i: int| 0 <= i < k ==> (#[trigger] artists@[i]).name@ != name@,
        decreases artists.len() - k,
    {
        if same_text(artists[k].name.as_str(), name) {
            return k;
        }
        k = k + 1;
    }
    proof {
        if lists_artist(views(artists@), name@) {
            let i = choose|i: int|
                0 <= i < artists@.len() && (#[trigger] views(artists@)[i]).name == name@;
            assert(artists@[i].name@ == name@);
        }
    }
    k
}

/// Puts one entry into the group of its artist, making a new group if there is none.
fn add_entry(artists: Vec<Artist>, entry: LibraryEntry, Ghost(before): Ghost<Seq<EntryView>>) -> (r:
    Vec<Artist>)
    requires
        groups_of(views(artists@), before),
    ensures
        groups_of(views(r@), before.push(entry@)),
{
    let mut artists = artists;
    let ghost groups = views(artists@);
    let at: usize = find_artist(&artists, entry.artist.as_str());
    let song = Song {
        title: entry.title,
        album: entry.album,
        year: entry.year,
        track_number: entry.track_number,
        path: entry.path,
        duration: entry.duration,
    };
    assert(song@ == song_of(entry@));
    if at == artists.len() {
        let mut songs: Vec<Song> = Vec::new();
        songs.push(song);
        artists.push(Artist { name: entry.artist, songs });
        proof {
            assert(views(songs@) =~= seq![song_of(entry@)]);
            assert(views(artists@) =~= groups.push(
                ArtistView { name: entry.artist@, songs: seq![song_of(entry@)] },
            ));
        }
    } else {
        let ghost was = artists@[at as int];
        artists[at].songs.push(song);
        proof {
            assert(views(artists@[at as int].songs@) =~= views(was.songs@).push(song@));
            assert(views(artists@) =~= groups.update(
                at as int,
                ArtistView {
                    name: groups[at as int].name,
                    songs: groups[at as int].songs.push(song_of(entry@)),
                },
            ));
        }
    }
    proof {
        lemma_groups_push(groups, views(artists@), before, entry@, at as int);
    }
    artists
}

proof fn lemma_filter_at_most_one<V>(s: Seq<V>, p: spec_fn(V) -> bool)
    requires
        forall|i: int, j: int|
            0 <= i < j < s.len() ==> !(p(#[trigger] s[i]) && p(#[trigger] s[j])),
    ensures
        s.filter(p).len() <= 1,
    decreases s.len(),
{
    reveal(Seq::filter);
    if s.len() > 0 {
        let rest = s.drop_last();
        lemma_filter_at_most_one(rest, p);
        if p(s.last()) && rest.filter(p).len() > 0 {
            let x = rest.filter(p)[0];
            rest.lemma_filter_pred(p, 0);
            rest.lemma_filter_contains_rev(p, x);
            let i = choose|i: int| 0 <= i < rest.len() && rest[i] == x;
            assert(p(s[i]) && p(s[s.len() - 1]));
        }
    }
}

proof fn lemma_filter_two<V>(s: Seq<V>, p: spec_fn(V) -> bool, i: int, j: int)
    requires
        0 <= i < j < s.len(),
        p(s[i]),
        p(s[j]),
    ensures
        s.filter(p).len() >= 2,
{
    let (x, y) = (s.take(j), s.skip(j));
    assert(s =~= x + y);
    Seq::filter_distributes_over_add(x, y, p);
    assert(x[i] == s[i] && y[0] == s[j]);
    x.lemma_filter_contains(p, i);
    y.lemma_filter_contains(p, 0);
    assert(x.filter(p).len() > 0 && y.filter(p).len() > 0);
}

/// Groups with distinct names are in strictly alphabetical order once sorted by name.
proof fn lemma_sorted_groups(
    groups: Seq<ArtistView>,
    out: Seq<ArtistView>,
    entries: Seq<EntryView>,
)
    requires
        groups_of(groups, entries),
        stable_sort_of(out, groups, order_of::<Artist>()),
    ensures
        groups_of(out, entries),
        artists_ascend(out),
{
    let le = order_of::<Artist>();
    crate::order::ranked_is_total_preorder::<Artist>();
    assert forall|i: int, j: int| 0 <= i < j < out.len() implies (#[trigger] out[i]).name != (
    #[trigger] out[j]).name by {
        if out[i].name == out[j].name {
            let p = crate::order::tied(le, out[i]);
            crate::text::text_le_total(out[i].name, out[i].name);
            lemma_filter_two(out, p, i, j);
            assert(out.filter(p) == groups.filter(p));
            assert forall|a: int, b: int| 0 <= a < b < groups.len() implies !(p(
                #[trigger] groups[a],
            ) && p(#[trigger] groups[b])) by {
                if p(groups[a]) && p(groups[b]) {
                    crate::text::text_le_antisymmetric(out[i].name, groups[a].name);
                    crate::text::text_le_antisymmetric(out[i].name, groups[b].name);
                }
            }
            lemma_filter_at_most_one(groups, p);
        }
    }
    assert forall|i: int, j: int| 0 <= i < j < out.len() implies text_lt(
        (#[trigger] out[i]).name,
        (#[trigger] out[j]).name,
    ) by {
        assert(le(out[i], out[j]));
    }
    assert forall|name: Seq<char>| #[trigger] lists_artist(out, name) <==> has_artist(
        entries,
        name,
    ) by {
        if lists_artist(out, name) {
            let i = choose|i: int| 0 <= i < out.len() && (#[trigger] out[i]).name == name;
            crate::order::stable_sort_keeps_elements(out, groups, le, out[i]);
            assert(groups.contains(out[i]));
            let k = choose|k: int| 0 <= k < groups.len() && groups[k] == out[i];
            assert(groups[k].name == name);
            assert(lists_artist(groups, name));
        }
        if has_artist(entries, name) {
            assert(lists_artist(groups, name));
            let k = choose|k: int| 0 <= k < groups.len() && (#[trigger] groups[k]).name == name;
            crate::order::stable_sort_keeps_elements(out, groups, le, groups[k]);
            assert(groups.contains(groups[k]));
            let i = choose|i: int| 0 <= i < out.len() && out[i] == groups[k];
            assert(out[i].name == name);
        }
    }
    assert forall|i: int| 0 <= i < out.len() implies (#[trigger] out[i]).songs == songs_by(
        entries,
        out[i].name,
    ) by {
        crate::order::stable_sort_keeps_elements(out, groups, le, out[i]);
        assert(out.contains(out[i]));
        let k = choose|k: int| 0 <= k < groups.len() && groups[k] == out[i];
        assert(groups[k].songs == songs_by(entries, groups[k].name));
    }
}

impl Default for Library {
    /// A library without any music.
    fn default() -> (r: Self)
        ensures
            r@ == Seq::<ArtistView>::empty(),
    {
        let r = Library { artists: Vec::new() };
        assert(r@ =~= Seq::<ArtistView>::empty());
        r
    }
}

impl Library {
    /// Groups flat entries by artist and sorts artists/albums/songs into display order.
    pub fn from_entries(entries: Vec<LibraryEntry>) -> (r: Library)
        ensures
            is_library_of(r@, views(entries@)),
            r@.len() <= entries@.len(),
    {
        let ghost all = views(entries@);
        let mut groups: Vec<Artist> = Vec::new();
        proof {
            assert forall|name: Seq<char>| #[trigger] lists_artist(views(groups@), name)
                <==> has_artist(all.take(0), name) by {}
        }
        for entry in it: entries
            invariant
                all == views(it.seq()),
                groups_of(views(groups@), all.take(it.index() as int)),
        {
            let ghost k = it.index() as int;
            groups = add_entry(groups, entry, Ghost(all.take(k)));
            assert(all.take(k).push(all[k]) =~= all.take(k + 1));
        }
        assert(all.take(all.len() as int) =~= all);
        let ghost unsorted = views(groups@);
        let sorted_groups = stable_sort(groups);
        proof {
            lemma_sorted_groups(unsorted, views(sorted_groups@), all);
        }
        let ghost by_name = views(sorted_groups@);
        let mut artists: Vec<Artist> = Vec::new();
        for artist in it: sorted_groups
            invariant
                by_name == views(it.seq()),
                groups_of(by_name, all),
                artists@.len() == it.index(),
                forall|i: int|
                    0 <= i < artists@.len() ==> (#[trigger] artists@[i])@.name == by_name[i].name
                        && stable_sort_of(
                        artists@[i]@.songs,
                        by_name[i].songs,
                        order_of::<Song>(),
                    ),
        {
            let Artist { name, songs } = artist;
            let ghost k = it.index() as int;
            assert(by_name[k] == it.seq()[k]@);
            let songs = stable_sort(songs);
            artists.push(Artist { name, songs });
        }
        let r = Library { artists };
        proof {
            assert(r@.len() == by_name.len());
            assert forall|i: int| 0 <= i < r@.len() implies (#[trigger] r@[i]).name
                == by_name[i].name && stable_sort_of(
                r@[i].songs,
                songs_by(all, r@[i].name),
                order_of::<Song>(),
            ) by {
                assert(r@[i] == artists@[i]@);
                assert(by_name[i].songs == songs_by(all, by_name[i].name));
            }
            assert forall|name: Seq<char>| #[trigger] lists_artist(r@, name) <==> has_artist(
                all,
                name,
            ) by {
                if lists_artist(r@, name) {
                    let i = choose|i: int| 0 <= i < r@.len() && (#[trigger] r@[i]).name == name;
                    assert(by_name[i].name == name);
                    assert(lists_artist(by_name, name));
                }
                if has_artist(all, name) {
                    assert(lists_artist(by_name, name));
                    let i = choose|i: int|
                        0 <= i < by_name.len() && (#[trigger] by_name[i]).name == name;
                    assert(r@[i].name == name);
                }
            }
            assert forall|i: int, j: int| 0 <= i < j < r@.len() implies text_lt(
                (#[trigger] r@[i]).name,
                (#[trigger] r@[j]).name,
            ) by {
                assert(text_lt(by_name[i].name, by_name[j].name));
            }
            library_is_no_longer(r@, all);
        }
        r
    }
}

/// There are no more artists than entries, and no artist has more songs than there are entries.
pub proof fn library_is_no_longer(artists: Seq<ArtistView>, entries: Seq<EntryView>)
    requires
        is_library_of(artists, entries),
    ensures
        artists.len() <= entries.len(),
        forall|i: int|
            0 <= i < artists.len() ==> 0 < (#[trigger] artists[i]).songs.len() <= entries.len(),
{
    assert forall|i: int| 0 <= i < artists.len() implies 0 < (#[trigger] artists[i]).songs.len()
        <= entries.len() by {
        let name = artists[i].name;
        assert(lists_artist(artists, name));
        assert(has_artist(entries, name));
        let k = choose|k: int| 0 <= k < entries.len() && (#[trigger] entries[k]).artist == name;
        entries.lemma_filter_len(by_artist(name));
        entries.lemma_filter_contains(by_artist(name), k);
    }
    assert forall|i: int| 0 <= i < artists.len() implies has_artist(
        entries,
        (#[trigger] artists[i]).name,
    ) by {
        assert(lists_artist(artists, artists[i].name));
    }
    lemma_distinct_artists_fit(artists, entries);
}

proof fn lemma_distinct_artists_fit(artists: Seq<ArtistView>, entries: Seq<EntryView>)
    requires
        forall|i: int, j: int|
            0 <= i < j < artists.len() ==> (#[trigger] artists[i]).name != (
            #[trigger] artists[j]).name,
        forall|i: int| 0 <= i < artists.len() ==> has_artist(entries, (#[trigger] artists[i]).name),
    ensures
        artists.len() <= entries.len(),
    decreases artists.len(),
{
    if artists.len() > 0 {
        let name = artists.last().name;
        assert(has_artist(entries, artists[artists.len() - 1].name));
        let k = choose|k: int| 0 <= k < entries.len() && (#[trigger] entries[k]).artist == name;
        let rest = artists.drop_last();
        let fewer = entries.remove(k);
        assert forall|i: int| 0 <= i < rest.len() implies has_artist(
            fewer,
            (#[trigger] rest[i]).name,
        ) by {
            assert(artists[i].name != artists[artists.len() - 1].name);
            assert(has_artist(entries, artists[i].name));
            let m = choose|m: int|
                0 <= m < entries.len() && (#[trigger] entries[m]).artist == artists[i].name;
            if m < k {
                assert(fewer[m] == entries[m]);
            } else {
                assert(fewer[m - 1] == entries[m]);
            }
        }
        assert forall|i: int, j: int| 0 <= i < j < rest.len() implies (#[trigger] rest[i]).name != (
        #[trigger] rest[j]).name by {
            assert(artists[i].name != artists[j].name);
        }
        lemma_distinct_artists_fit(rest, fewer);
    }
}

/// Two strictly alphabetical lists of the same artists name them in the same places.
proof fn lemma_same_names(a: Seq<ArtistView>, b: Seq<ArtistView>)
    requires
        artists_ascend(a),
        artists_ascend(b),
        forall|name: Seq<char>| #[trigger] lists_artist(a, name) <==> lists_artist(b, name),
    ensures
        a.len() == b.len(),
        forall|i: int| 0 <= i < a.len() ==> (#[trigger] a[i]).name == b[i].name,
    decreases a.len(),
{
    if a.len() == 0 {
        if b.len() > 0 {
            assert(lists_artist(b, b[0].name));
            assert(lists_artist(a, b[0].name));
        }
    } else {
        assert(lists_artist(a, a[0].name));
        assert(lists_artist(b, a[0].name));
        let m = choose|m: int| 0 <= m < b.len() && (#[trigger] b[m]).name == a[0].name;
        assert(lists_artist(b, b[0].name));
        assert(lists_artist(a, b[0].name));
        let n = choose|n: int| 0 <= n < a.len() && (#[trigger] a[n]).name == b[0].name;
        if m > 0 && n > 0 {
            assert(text_lt(b[0].name, b[m].name));
            assert(text_lt(a[0].name, a[n].name));
            crate::text::text_le_antisymmetric(a[0].name, b[0].name);
        }
        assert(a[0].name == b[0].name);
        let (ra, rb) = (a.skip(1), b.skip(1));
        assert forall|i: int, j: int| 0 <= i < j < ra.len() implies text_lt(
            (#[trigger] ra[i]).name,
            (#[trigger] ra[j]).name,
        ) by {
            assert(ra[i] == a[i + 1] && ra[j] == a[j + 1]);
        }
        assert forall|i: int, j: int| 0 <= i < j < rb.len() implies text_lt(
            (#[trigger] rb[i]).name,
            (#[trigger] rb[j]).name,
        ) by {
            assert(rb[i] == b[i + 1] && rb[j] == b[j + 1]);
        }
        assert forall|name: Seq<char>| #[trigger] lists_artist(ra, name) <==> lists_artist(
            rb,
            name,
        ) by {
            lemma_lists_rest(a, b, name);
            lemma_lists_rest(b, a, name);
        }
        lemma_same_names(ra, rb);
        assert forall|i: int| 0 <= i < a.len() implies (#[trigger] a[i]).name == b[i].name by {
            if i > 0 {
                assert(ra[i - 1].name == rb[i - 1].name);
            }
        }
    }
}

proof fn lemma_lists_rest(a: Seq<ArtistView>, b: Seq<ArtistView>, name: Seq<char>)
    requires
        a.len() > 0,
        b.len() > 0,
        a[0].name == b[0].name,
        artists_ascend(a),
        lists_artist(a, name) ==> lists_artist(b, name),
    ensures
        lists_artist(a.skip(1), name) ==> lists_artist(b.skip(1), name),
{
    if lists_artist(a.skip(1), name) {
        let i = choose|i: int|
            0 <= i < a.skip(1).len() && (#[trigger] a.skip(1)[i]).name == name;
        assert(a[i + 1].name == name);
        assert(text_lt(a[0].name, a[i + 1].name));
        assert(lists_artist(a, name));
        let k = choose|k: int| 0 <= k < b.len() && (#[trigger] b[k]).name == name;
        assert(b.skip(1)[k - 1].name == name);
    }
}

/// A library is always built the same way: the entries determine all of it.
pub proof fn library_is_determined(
    one: Seq<ArtistView>,
    other: Seq<ArtistView>,
    entries: Seq<EntryView>,
)
    requires
        is_library_of(one, entries),
        is_library_of(other, entries),
    ensures
        one == other,
{
    assert forall|name: Seq<char>| #[trigger] lists_artist(one, name) <==> lists_artist(
        other,
        name,
    ) by {
        assert(lists_artist(one, name) <==> has_artist(entries, name));
        assert(lists_artist(other, name) <==> has_artist(entries, name));
    }
    lemma_same_names(one, other);
    crate::order::ranked_is_total_preorder::<Song>();
    assert forall|i: int| 0 <= i < one.len() implies one[i] == other[i] by {
        assert(one[i].name == other[i].name);
        crate::order::stable_sort_is_unique(
            one[i].songs,
            other[i].songs,
            songs_by(entries, one[i].name),
            order_of::<Song>(),
        );
    }
    assert(one =~= other);
}

/// The songs of an album stand together: between two songs of one album there is no other.
pub proof fn albums_are_contiguous(songs: Seq<SongView>, i: int, j: int, k: int)
    requires
        crate::order::sorted(songs, order_of::<Song>()),
        0 <= i <= j <= k < songs.len(),
        same_album(songs[i], songs[k]),
    ensures
        same_album(songs[i], songs[j]),
{
    if i < j && j < k {
        let le = order_of::<Song>();
        assert(le(songs[i], songs[j]));
        assert(le(songs[j], songs[k]));
        album_le_total(songs[i], songs[j]);
        album_le_total(songs[k], songs[i]);
        album_le_total(songs[j], songs[k]);
        album_le_transitive(songs[j], songs[k], songs[i]);
    }
}

/// Albums come newest first, and those without a year after all dated ones.
pub proof fn newest_albums_come_first(songs: Seq<SongView>, i: int, j: int)
    requires
        crate::order::sorted(songs, order_of::<Song>()),
        0 <= i < j < songs.len(),
    ensures
        songs[j].year is Some ==> songs[i].year is Some && songs[i].year->0 >= songs[j].year->0,
{
    let le = order_of::<Song>();
    assert(le(songs[i], songs[j]));
}

/// How many songs a library holds.
pub open spec fn song_count(artists: Seq<ArtistView>) -> nat
    decreases artists.len(),
{
    if artists.len() == 0 {
        0
    } else {
        song_count(artists.drop_last()) + artists.last().songs.len()
    }
}

spec fn count_by(artists: Seq<ArtistView>, entries: Seq<EntryView>) -> nat
    decreases artists.len(),
{
    if artists.len() == 0 {
        0
    } else {
        count_by(artists.drop_last(), entries) + songs_by(entries, artists.last().name).len()
    }
}

proof fn lemma_count_push(artists: Seq<ArtistView>, entries: Seq<EntryView>, e: EntryView)
    requires
        forall|i: int, j: int|
            0 <= i < j < artists.len() ==> (#[trigger] artists[i]).name != (
            #[trigger] artists[j]).name,
    ensures
        count_by(artists, entries.push(e)) == count_by(artists, entries) + (if lists_artist(
            artists,
            e.artist,
        ) {
            1int
        } else {
            0int
        }),
    decreases artists.len(),
{
    if artists.len() > 0 {
        let rest = artists.drop_last();
        let last = artists.last();
        assert forall|i: int, j: int| 0 <= i < j < rest.len() implies (#[trigger] rest[i]).name != (
        #[trigger] rest[j]).name by {
            assert(artists[i].name != artists[j].name);
        }
        lemma_count_push(rest, entries, e);
        lemma_songs_by_push(entries, e, last.name);
        if lists_artist(rest, e.artist) {
            let i = choose|i: int| 0 <= i < rest.len() && (#[trigger] rest[i]).name == e.artist;
            assert(artists[i].name == e.artist);
            assert(artists[i].name != artists[artists.len() - 1].name);
        } else if lists_artist(artists, e.artist) {
            let i = choose|i: int|
                0 <= i < artists.len() && (#[trigger] artists[i]).name == e.artist;
            if i < rest.len() {
                assert(rest[i].name == e.artist);
            }
        } else {
            assert(artists[artists.len() - 1].name != e.artist);
        }
        if last.name == e.artist {
            assert(artists[artists.len() - 1].name == e.artist);
        }
    }
}

proof fn lemma_count_all(artists: Seq<ArtistView>, entries: Seq<EntryView>)
    requires
        forall|i: int, j: int|
            0 <= i < j < artists.len() ==> (#[trigger] artists[i]).name != (
            #[trigger] artists[j]).name,
        forall|k: int|
            0 <= k < entries.len() ==> lists_artist(artists, (#[trigger] entries[k]).artist),
    ensures
        count_by(artists, entries) == entries.len(),
    decreases entries.len(),
{
    if entries.len() == 0 {
        lemma_count_none(artists, entries);
    } else {
        let rest = entries.drop_last();
        assert forall|k: int| 0 <= k < rest.len() implies lists_artist(
            artists,
            (#[trigger] rest[k]).artist,
        ) by {
            assert(entries[k] == rest[k]);
        }
        lemma_count_all(artists, rest);
        lemma_count_push(artists, rest, entries.last());
        assert(entries =~= rest.push(entries.last()));
        assert(lists_artist(artists, entries[entries.len() - 1].artist));
    }
}

proof fn lemma_count_none(artists: Seq<ArtistView>, entries: Seq<EntryView>)
    requires
        entries.len() == 0,
    ensures
        count_by(artists, entries) == 0,
    decreases artists.len(),
{
    if artists.len() > 0 {
        lemma_count_none(artists.drop_last(), entries);
        lemma_no_songs(entries, artists.last().name);
    }
}

proof fn lemma_count_songs(artists: Seq<ArtistView>, entries: Seq<EntryView>)
    requires
        forall|i: int|
            0 <= i < artists.len() ==> (#[trigger] artists[i]).songs.len() == songs_by(
                entries,
                artists[i].name,
            ).len(),
    ensures
        song_count(artists) == count_by(artists, entries),
    decreases artists.len(),
{
    if artists.len() > 0 {
        let rest = artists.drop_last();
        assert forall|i: int| 0 <= i < rest.len() implies (#[trigger] rest[i]).songs.len()
            == songs_by(entries, rest[i].name).len() by {
            assert(artists[i] == rest[i]);
        }
        lemma_count_songs(rest, entries);
        assert(artists[artists.len() - 1].songs.len() == songs_by(
            entries,
            artists[artists.len() - 1].name,
        ).len());
    }
}

/// Grouping neither loses nor repeats a song: there are as many songs as entries.
pub proof fn library_keeps_every_song(artists: Seq<ArtistView>, entries: Seq<EntryView>)
    requires
        is_library_of(artists, entries),
    ensures
        song_count(artists) == entries.len(),
{
    assert forall|k: int| 0 <= k < entries.len() implies lists_artist(
        artists,
        (#[trigger] entries[k]).artist,
    ) by {
        assert(has_artist(entries, entries[k].artist));
    }
    lemma_count_all(artists, entries);
    lemma_count_songs(artists, entries);
}

/// The entries of one artist as songs, in the order of the entries.
pub open spec fn songs_of_artist(entries: Seq<EntryView>, name: Seq<char>) -> Seq<SongView> {
    entries.filter(|e: EntryView| e.artist == name).map_values(
        |e: EntryView|
            SongView {
                title: e.title,
                album: e.album,
                year: e.year,
                track_number: e.track_number,
                path: e.path,
                duration: e.duration,
            },
    )
}

proof fn lemma_songs_of_artist(entries: Seq<EntryView>, name: Seq<char>)
    ensures
        songs_of_artist(entries, name) == songs_by(entries, name),
{
    assert(by_artist(name) =~= |e: EntryView| e.artist == name);
    assert(songs_of_artist(entries, name) =~= songs_by(entries, name));
}

/// Under each artist stand the songs of all entries by that artist, each as often as there are
/// entries for it, with title, album, year, track number, path and duration as the entry has them.
pub proof fn artists_have_the_songs_of_their_entries(
    artists: Seq<ArtistView>,
    entries: Seq<EntryView>,
    i: int,
)
    requires
        is_library_of(artists, entries),
        0 <= i < artists.len(),
    ensures
        artists[i].songs.to_multiset() == songs_of_artist(
            entries,
            artists[i].name,
        ).to_multiset(),
        artists[i].songs.len() == entries.filter(
            |e: EntryView| e.artist == artists[i].name,
        ).len(),
{
    crate::order::ranked_is_total_preorder::<Song>();
    lemma_songs_of_artist(entries, artists[i].name);
    crate::order::stable_sort_keeps_counts(
        artists[i].songs,
        songs_by(entries, artists[i].name),
        order_of::<Song>(),
    );
}

/// Every entry is listed: its artist is there, with a song that has all that the entry says.
pub proof fn every_entry_is_listed(artists: Seq<ArtistView>, entries: Seq<EntryView>, k: int)
    requires
        is_library_of(artists, entries),
        0 <= k < entries.len(),
    ensures
        exists|i: int, j: int|
            0 <= i < artists.len() && 0 <= j < artists[i].songs.len() && artists[i].name
                == entries[k].artist && (#[trigger] artists[i].songs[j]) == (SongView {
                title: entries[k].title,
                album: entries[k].album,
                year: entries[k].year,
                track_number: entries[k].track_number,
                path: entries[k].path,
                duration: entries[k].duration,
            }),
{
    let e = entries[k];
    assert(has_artist(entries, e.artist));
    assert(lists_artist(artists, e.artist));
    let i = choose|i: int| 0 <= i < artists.len() && (#[trigger] artists[i]).name == e.artist;
    crate::order::ranked_is_total_preorder::<Song>();
    let mine = songs_by(entries, e.artist);
    entries.lemma_filter_contains(by_artist(e.artist), k);
    let kept = entries.filter(by_artist(e.artist));
    let m = choose|m: int| 0 <= m < kept.len() && kept[m] == e;
    assert(mine[m] == song_of(e));
    crate::order::stable_sort_keeps_elements(
        artists[i].songs,
        mine,
        order_of::<Song>(),
        song_of(e),
    );
    let j = choose|j: int| 0 <= j < artists[i].songs.len() && artists[i].songs[j] == song_of(e);
    assert(artists[i].songs[j] == song_of(e));
}

/// Artists are listed in the order of their names, and no name twice.
pub proof fn artists_are_alphabetical(
    artists: Seq<ArtistView>,
    entries: Seq<EntryView>,
    i: int,
    j: int,
)
    requires
        is_library_of(artists, entries),
        0 <= i < j < artists.len(),
    ensures
        text_le(artists[i].name, artists[j].name),
        artists[i].name != artists[j].name,
{
    assert(text_lt(artists[i].name, artists[j].name));
}

/// The number by which a song stands on its album: a song without one comes after all numbers below
/// the largest.
pub open spec fn place_on_album(s: SongView) -> int {
    if s.track_number is Some {
        s.track_number->0 as int
    } else {
        0xffff_ffff
    }
}

/// Songs of an artist are listed by album, newest first and those without a year last, albums of
/// one year by name; on one album by track number, as numbers, with those that have none behind;
/// and those of one number by title.
pub proof fn songs_are_in_display_order(songs: Seq<SongView>, i: int, j: int)
    requires
        crate::order::sorted(songs, order_of::<Song>()),
        0 <= i < j < songs.len(),
    ensures
        ({
            let (a, b) = (songs[i], songs[j]);
            &&& b.year is Some ==> a.year is Some && a.year->0 >= b.year->0
            &&& a.year == b.year ==> text_le(a.album, b.album)
            &&& a.year == b.year && a.album == b.album ==> {
                &&& a.track_number is Some && b.track_number is Some ==> a.track_number->0
                    <= b.track_number->0
                &&& a.track_number is None && b.track_number is Some ==> b.track_number->0
                    == u32::MAX
                &&& place_on_album(a) <= place_on_album(b)
                &&& place_on_album(a) == place_on_album(b) ==> text_le(a.title, b.title)
            }
        }),
{
    let le = order_of::<Song>();
    assert(le(songs[i], songs[j]));
    crate::text::text_le_total(songs[i].album, songs[i].album);
}

/// The same, of every artist of a library.
pub proof fn libraries_are_in_display_order(
    artists: Seq<ArtistView>,
    entries: Seq<EntryView>,
    n: int,
    i: int,
    j: int,
)
    requires
        is_library_of(artists, entries),
        0 <= n < artists.len(),
        0 <= i < j < artists[n].songs.len(),
    ensures
        ({
            let (a, b) = (artists[n].songs[i], artists[n].songs[j]);
            &&& b.year is Some ==> a.year is Some && a.year->0 >= b.year->0
            &&& a.year == b.year ==> text_le(a.album, b.album)
            &&& a.year == b.year && a.album == b.album ==> {
                &&& place_on_album(a) <= place_on_album(b)
                &&& place_on_album(a) == place_on_album(b) ==> text_le(a.title, b.title)
            }
        }),
{
    songs_are_in_display_order(artists[n].songs, i, j);
}

/// Songs that nothing tells apart stay in the order of their entries.
pub proof fn like_songs_keep_their_order(
    artists: Seq<ArtistView>,
    entries: Seq<EntryView>,
    n: int,
    x: SongView,
)
    requires
        is_library_of(artists, entries),
        0 <= n < artists.len(),
    ensures
        ({
            let like = |y: SongView|
                y.album == x.album && y.year == x.year && place_on_album(y) == place_on_album(x)
                    && y.title == x.title;
            artists[n].songs.filter(like) == songs_of_artist(entries, artists[n].name).filter(like)
        }),
{
    let like = |y: SongView|
        y.album == x.album && y.year == x.year && place_on_album(y) == place_on_album(x)
            && y.title == x.title;
    let p = crate::order::tied(order_of::<Song>(), x);
    assert forall|y: SongView| #[trigger] like(y) == p(y) by {
        if p(y) {
            album_le_total(x, y);
            album_le_total(y, x);
            if text_le(x.title, y.title) && text_le(y.title, x.title) {
                crate::text::text_le_antisymmetric(x.title, y.title);
            }
        }
        if like(y) {
            crate::text::text_le_total(x.title, x.title);
        }
    }
    assert(like =~= p);
    lemma_songs_of_artist(entries, artists[n].name);
    assert(artists[n].songs.filter(p) == songs_by(entries, artists[n].name).filter(p));
}

/// Two songs are on one album if and only if album and year are the same.
pub proof fn albums_are_told_by_name_and_year(a: SongView, b: SongView)
    ensures
        same_album(a, b) <==> a.album == b.album && a.year == b.year,
        album_le(a, b) <==> (a.year is Some && b.year is None) || (a.year is Some && b.year is Some
            && a.year->0 > b.year->0) || (a.year == b.year && text_le(a.album, b.album)),
{
}

/// The model of a song, of an artist, of a library and of an entry has each field in its place.
pub proof fn library_views_hold_the_fields(
    song: Song,
    artist: Artist,
    library: Library,
    entry: LibraryEntry,
)
    ensures
        song@.title == song.title@,
        song@.album == song.album@,
        song@.year == song.year,
        song@.track_number == song.track_number,
        song@.path == song.path@,
        song@.duration == song.duration,
        artist@.name == artist.name@,
        artist@.songs.len() == artist.songs@.len(),
        forall|i: int|
            0 <= i < artist.songs@.len() ==> #[trigger] artist@.songs[i] == artist.songs@[i]@,
        library@.len() == library.artists@.len(),
        forall|i: int|
            0 <= i < library.artists@.len() ==> #[trigger] library@[i] == library.artists@[i]@,
        entry@.path == entry.path@,
        entry@.artist == entry.artist@,
        entry@.album == entry.album@,
        entry@.year == entry.year,
        entry@.track_number == entry.track_number,
        entry@.title == entry.title@,
        entry@.duration == entry.duration,
{
}

} // verus!
