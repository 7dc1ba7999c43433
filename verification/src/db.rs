//! The shape in which songs are stored, and the way back to a library.

use vstd::prelude::*;

use crate::library::{is_library_of, EntryView, Library, LibraryEntry};
use crate::order::views;
use crate::time::Duration;

verus! {

/// Why the database could not be opened, read or changed.
#[derive(Debug)]
pub struct DbError {
    pub message: String,
}

/// One row of the `songs` table.
#[derive(Debug)]
pub struct StoredSong {
    pub path: String,
    pub artist: String,
    pub album: String,
    pub year: Option<i64>,
    pub track_number: Option<i64>,
    pub title: String,
    pub duration_ms: i64,
}

/// What a row holds.
pub struct StoredSongView {
    pub path: Seq<char>,
    pub artist: Seq<char>,
    pub album: Seq<char>,
    pub year: Option<i64>,
    pub track_number: Option<i64>,
    pub title: Seq<char>,
    pub duration_ms: i64,
}

impl View for StoredSong {
    type V = StoredSongView;

    open spec fn view(&self) -> StoredSongView {
        StoredSongView {
            path: self.path@,
            artist: self.artist@,
            album: self.album@,
            year: self.year,
            track_number: self.track_number,
            title: self.title@,
            duration_ms: self.duration_ms,
        }
    }
}

/// The row that stores an entry. A duration of more milliseconds than fit wraps around.
pub open spec fn stored(e: EntryView) -> StoredSongView {
    StoredSongView {
        path: e.path,
        artist: e.artist,
        album: e.album,
        year: match e.year {
            Some(y) => Some(y as i64),
            None => None,
        },
        track_number: match e.track_number {
            Some(t) => Some(t as i64),
            None => None,
        },
        title: e.title,
        duration_ms: #[verifier::truncate] ((e.duration.millis() as u128) as i64),
    }
}

/// The span of so many milliseconds, a negative number being read as its bits say.
pub open spec fn duration_of(ms: i64) -> Duration {
    let n = #[verifier::truncate] (ms as u64);
    Duration { secs: n / 1000, nanos: ((n % 1000) * 1_000_000) as u32 }
}

/// The entry that a row describes. Numbers that do not fit wrap around.
pub open spec fn loaded(row: StoredSongView) -> EntryView {
    EntryView {
        path: row.path,
        artist: row.artist,
        album: row.album,
        year: match row.year {
            Some(y) => Some(#[verifier::truncate] (y as u16)),
            None => None,
        },
        track_number: match row.track_number {
            Some(t) => Some(#[verifier::truncate] (t as u32)),
            None => None,
        },
        title: row.title,
        duration: duration_of(row.duration_ms),
    }
}

/// The row in which an entry is inserted or updated.
pub fn to_row(entry: &LibraryEntry) -> (r: StoredSong)
    ensures
        r@ == stored(entry@),
{
    let year: Option<i64> = match entry.year {
        Some(y) => Some(y as i64),
        None => None,
    };
    let track_number: Option<i64> = match entry.track_number {
        Some(t) => Some(t as i64),
        None => None,
    };
    let millis: u128 = entry.duration.as_millis();
    StoredSong {
        path: entry.path.clone(),
        artist: entry.artist.clone(),
        album: entry.album.clone(),
        year,
        track_number,
        title: entry.title.clone(),
        duration_ms: #[verifier::truncate] (millis as i64),
    }
}

/// The entry that a row describes.
pub fn from_row(row: StoredSong) -> (r: LibraryEntry)
    ensures
        r@ == loaded(row@),
        r.duration.wf(),
{
    let year: Option<u16> = match row.year {
        Some(y) => Some(#[verifier::truncate] (y as u16)),
        None => None,
    };
    let track_number: Option<u32> = match row.track_number {
        Some(t) => Some(#[verifier::truncate] (t as u32)),
        None => None,
    };
    let duration = Duration::from_millis(#[verifier::truncate] (row.duration_ms as u64));
    LibraryEntry {
        path: row.path,
        artist: row.artist,
        album: row.album,
        year,
        track_number,
        title: row.title,
        duration,
    }
}

/// The rows to insert or update for freshly scanned entries, in order.
pub fn upsert_rows(entries: &Vec<LibraryEntry>) -> (r: Vec<StoredSong>)
    ensures
        views(r@) == views(entries@).map_values(|e: EntryView| stored(e)),
{
    let mut rows: Vec<StoredSong> = Vec::new();
    let mut k: usize = 0;
    while k < entries.len()
        invariant
            k <= entries@.len(),
            rows@.len() == k,
            forall|i: int| 0 <= i < k ==> (#[trigger] rows@[i])@ == stored(entries@[i]@),
        decreases entries.len() - k,
    {
        rows.push(to_row(&entries[k]));
        k = k + 1;
    }
    assert(views(rows@) =~= views(entries@).map_values(|e: EntryView| stored(e)));
    rows
}

/// The entries that the rows describe, in order.
pub open spec fn entries_of(rows: Seq<StoredSongView>) -> Seq<EntryView> {
    rows.map_values(|row: StoredSongView| loaded(row))
}

/// Turns every stored song into a `Library`. This is the single function used to build the
/// in-memory library, whether at startup or after any command that mutates the database, so the
/// database is always the one source of truth for library contents.
pub fn load_library(rows: Vec<StoredSong>) -> (r: Library)
    ensures
        is_library_of(r@, entries_of(views(rows@))),
        r@.len() <= rows@.len(),
{
    let ghost all = rows@;
    let mut entries: Vec<LibraryEntry> = Vec::new();
    for row in it: rows
        invariant
            it.seq() == all,
            entries@.len() == it.index(),
            forall|i: int| 0 <= i < entries@.len() ==> (#[trigger] entries@[i])@ == loaded(all[i]@),
    {
        entries.push(from_row(row));
    }
    assert(views(entries@) =~= entries_of(views(all)));
    Library::from_entries(entries)
}

/// An entry whose duration has lost the part below a millisecond.
pub open spec fn in_millis(e: EntryView) -> EntryView {
    EntryView {
        duration: Duration {
            secs: e.duration.secs,
            nanos: ((e.duration.nanos / 1_000_000) * 1_000_000) as u32,
        },
        ..e
    }
}

/// Whether an entry's duration is a proper one, of no more milliseconds than fit in 64 bits.
pub open spec fn storable(e: EntryView) -> bool {
    e.duration.wf() && e.duration.millis() <= u64::MAX
}

/// What was stored is what is loaded, but for the part of the duration below a millisecond.
pub proof fn stored_entry_loads_back(e: EntryView)
    requires
        storable(e),
    ensures
        loaded(stored(e)) == in_millis(e),
{
    let d = e.duration;
    let ms = d.millis();
    let wide = ms as u128;
    assert(wide <= 0xffff_ffff_ffff_ffffu128 ==> ((wide as i64) as u64) == wide) by (bit_vector);
    assert(stored(e).duration_ms as u64 == ms);
    assert(ms == d.secs * 1000 + d.nanos / 1_000_000);
    assert(d.nanos / 1_000_000 < 1000);
    assert(ms / 1000 == d.secs && ms % 1000 == d.nanos / 1_000_000);
}

/// Storing again what was loaded changes nothing: a row that was written from an entry is written
/// the same after loading it.
pub proof fn loaded_entry_stores_the_same(e: EntryView)
    requires
        storable(e),
    ensures
        stored(loaded(stored(e))) == stored(e),
{
    stored_entry_loads_back(e);
}

/// Loading the rows of some entries gives the entries, in order, in whole milliseconds.
pub proof fn stored_entries_load_back(entries: Seq<EntryView>)
    requires
        forall|i: int| 0 <= i < entries.len() ==> storable(#[trigger] entries[i]),
    ensures
        entries_of(entries.map_values(|e: EntryView| stored(e))) == entries.map_values(
            |e: EntryView| in_millis(e),
        ),
{
    let back = entries_of(entries.map_values(|e: EntryView| stored(e)));
    assert forall|i: int| 0 <= i < entries.len() implies #[trigger] back[i] == in_millis(
        entries[i],
    ) by {
        stored_entry_loads_back(entries[i]);
    }
    assert(back =~= entries.map_values(|e: EntryView| in_millis(e)));
}

/// Entries whose durations are whole milliseconds, as those of a scan are, load back unchanged.
pub proof fn scanned_entries_load_back(entries: Seq<EntryView>)
    requires
        forall|i: int|
            0 <= i < entries.len() ==> (#[trigger] entries[i]).duration.whole_millis(),
    ensures
        entries_of(entries.map_values(|e: EntryView| stored(e))) == entries,
{
    assert forall|i: int| 0 <= i < entries.len() implies storable(#[trigger] entries[i])
        && in_millis(entries[i]) == entries[i] by {
        assert(entries[i].duration.whole_millis());
    }
    stored_entries_load_back(entries);
    assert(entries.map_values(|e: EntryView| in_millis(e)) =~= entries);
}

/// A row has each field of its entry in its own column, with the duration in milliseconds. Of a
/// duration that is too long the lowest bits are kept.
pub proof fn rows_have_the_fields_of_their_entries(e: EntryView)
    ensures
        stored(e).path == e.path,
        stored(e).artist == e.artist,
        stored(e).album == e.album,
        stored(e).title == e.title,
        e.year is None <==> stored(e).year is None,
        e.year is Some ==> stored(e).year->0 == e.year->0,
        e.track_number is None <==> stored(e).track_number is None,
        e.track_number is Some ==> stored(e).track_number->0 == e.track_number->0,
        e.duration.secs * 1000 + e.duration.nanos / 1_000_000 <= i64::MAX ==> stored(
            e,
        ).duration_ms == e.duration.secs * 1000 + e.duration.nanos / 1_000_000,
        ({
            let row = stored(e).duration_ms;
            let bits = if row >= 0 {
                row as int
            } else {
                row + 0x1_0000_0000_0000_0000
            };
            bits == (e.duration.secs * 1000 + e.duration.nanos / 1_000_000)
                % 0x1_0000_0000_0000_0000
        }),
{
    let ms = e.duration.millis();
    let wide = ms as u128;
    assert(wide <= 0x7fff_ffff_ffff_ffffu128 ==> (wide as i64) == wide) by (bit_vector);
    assert((wide as i64) >= 0 ==> (wide as i64) as int == (wide as int) % 0x1_0000_0000_0000_0000)
        by (bit_vector);
    assert((wide as i64) < 0 ==> (wide as i64) + 0x1_0000_0000_0000_0000 == (wide as int)
        % 0x1_0000_0000_0000_0000) by (bit_vector);
}

/// An entry has each column of its row in its own field. Numbers that are too large for a field keep
/// their lowest bits.
pub proof fn entries_have_the_columns_of_their_rows(row: StoredSongView)
    ensures
        loaded(row).path == row.path,
        loaded(row).artist == row.artist,
        loaded(row).album == row.album,
        loaded(row).title == row.title,
        row.year is None <==> loaded(row).year is None,
        row.year is Some ==> loaded(row).year->0 == row.year->0 as int % 0x1_0000,
        row.track_number is None <==> loaded(row).track_number is None,
        row.track_number is Some ==> loaded(row).track_number->0 == row.track_number->0 as int
            % 0x1_0000_0000,
        ({
            let ms = if row.duration_ms >= 0 {
                row.duration_ms as int
            } else {
                row.duration_ms + 0x1_0000_0000_0000_0000
            };
            &&& loaded(row).duration.secs == ms / 1000
            &&& loaded(row).duration.nanos == (ms % 1000) * 1_000_000
        }),
{
    if row.year is Some {
        let y = row.year->0;
        assert((y as u16) as int == (y as int) % 0x1_0000) by (bit_vector);
    }
    if row.track_number is Some {
        let t = row.track_number->0;
        assert((t as u32) as int == (t as int) % 0x1_0000_0000) by (bit_vector);
    }
    let d = row.duration_ms;
    assert(d >= 0 ==> (d as u64) as int == d as int) by (bit_vector);
    assert(d < 0 ==> (d as u64) as int == d + 0x1_0000_0000_0000_0000) by (bit_vector);
}

/// There is one entry for each row, in order.
pub proof fn rows_become_entries_one_by_one(rows: Seq<StoredSongView>, k: int)
    requires
        0 <= k < rows.len(),
    ensures
        entries_of(rows).len() == rows.len(),
        entries_of(rows)[k] == loaded(rows[k]),
{
}

/// The model of a row has each column in its place.
pub proof fn row_views_hold_the_columns(row: StoredSong)
    ensures
        row@.path == row.path@,
        row@.artist == row.artist@,
        row@.album == row.album@,
        row@.year == row.year,
        row@.track_number == row.track_number,
        row@.title == row.title@,
        row@.duration_ms == row.duration_ms,
{
}

} // verus!
