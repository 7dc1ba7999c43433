//! Searching a directory tree for MP3 files and collecting their tags.
//!
//! [`Scan`] decides what to do next; whoever drives it lists directories and reads files, and
//! hands back what was found. `P` stands for a place on disk and is only carried through.

use vstd::prelude::*;

use std::collections::VecDeque;

use crate::library::{EntryView, LibraryEntry, LibraryError};
use crate::order::views;
use crate::tags::{
    is_field, mpeg_audio, opt_text, read_tags, tags_come_from_the_file, tags_of, TagFieldsView,
    TaggedAudioView,
};
use crate::text::{
    chars_of, equal_ignoring_ascii_case, same_ignoring_ascii_case, same_letter, text_of,
};

verus! {

/// One thing found on disk.
#[derive(Debug)]
pub struct FoundPath<P> {
    pub place: P,
    /// The part of the file name after its last dot, if there is one and it is valid text.
    pub extension: Option<String>,
    pub is_dir: bool,
}

/// What a found path holds.
pub struct FoundView<P> {
    pub place: P,
    pub extension: Option<Seq<char>>,
    pub is_dir: bool,
}

impl<P> View for FoundPath<P> {
    type V = FoundView<P>;

    open spec fn view(&self) -> FoundView<P> {
        FoundView {
            place: self.place,
            extension: opt_text(self.extension),
            is_dir: self.is_dir,
        }
    }
}

/// Whether a file with this extension is taken for an MP3, in upper or lower case.
pub open spec fn names_mp3(extension: Option<Seq<char>>) -> bool {
    extension is Some && same_ignoring_ascii_case(extension->0, "mp3"@)
}

/// Whether a file with this extension is an MP3.
pub fn is_mp3(extension: &Option<String>) -> (r: bool)
    ensures
        r == names_mp3(opt_text(*extension)),
{
    match extension {
        Some(text) => equal_ignoring_ascii_case(text.as_str(), "mp3"),
        None => false,
    }
}

/// What a directory entry turned out to be: something found, or an error with its text.
pub type Item<P> = Result<FoundPath<P>, String>;

/// What an item holds.
pub type ItemView<P> = Result<FoundView<P>, Seq<char>>;

/// The view of one item.
pub open spec fn item_view<P>(item: Item<P>) -> ItemView<P> {
    match item {
        Ok(found) => Ok(found@),
        Err(text) => Err(text@),
    }
}

/// The views of a list of items.
pub open spec fn item_views<P>(items: Seq<Item<P>>) -> Seq<ItemView<P>> {
    items.map_values(|item: Item<P>| item_view(item))
}

/// What to do next.
#[derive(Debug)]
pub enum ScanStep<P> {
    /// List this directory and call [`Scan::listed`].
    ListDirectory(P),
    /// Read this file and call [`Scan::file_read`].
    ReadFile(P),
    /// Nothing is left; call [`Scan::finish`].
    Done,
}

/// What a scan has read.
#[derive(Debug)]
struct ReadEntries {
    list: Vec<LibraryEntry>,
}

impl ReadEntries {
    /// Every duration is made of whole milliseconds.
    #[verifier::type_invariant]
    spec fn inv(self) -> bool {
        forall|i: int|
            0 <= i < self.list@.len() ==> (#[trigger] self.list@[i]).duration.whole_millis()
    }

    fn push(&mut self, entry: LibraryEntry)
        requires
            entry.duration.whole_millis(),
        ensures
            final(self).list@ == old(self).list@.push(entry),
    {
        proof {
            use_type_invariant(&*self);
        }
        let mut list: Vec<LibraryEntry> = Vec::new();
        std::mem::swap(&mut list, &mut self.list);
        list.push(entry);
        self.list = list;
    }
}

/// A scan under way.
#[derive(Debug)]
pub struct Scan<P> {
    pending: VecDeque<Item<P>>,
    files: VecDeque<P>,
    entries: ReadEntries,
    failure: Option<LibraryError>,
}

/// The state of a scan.
#[verifier::ext_equal]
pub struct ScanView<P> {
    /// What has been found but not looked at, in order.
    pub pending: Seq<ItemView<P>>,
    /// The MP3 files found and not read yet, in order.
    pub files: Seq<P>,
    /// What has been read, in order.
    pub entries: Seq<EntryView>,
    /// The error that ended the scan.
    pub failure: Option<Seq<char>>,
}

impl<P> View for Scan<P> {
    type V = ScanView<P>;

    closed spec fn view(&self) -> ScanView<P> {
        ScanView {
            pending: item_views(self.pending@),
            files: self.files@,
            entries: views(self.entries.list@),
            failure: match self.failure {
                Some(e) => Some(e.message@),
                None => None,
            },
        }
    }
}

/// A scan that failed has nothing left to do.
pub open spec fn failed<P>(s: ScanView<P>, text: Seq<char>) -> ScanView<P> {
    ScanView {
        pending: Seq::empty(),
        files: Seq::empty(),
        entries: s.entries,
        failure: Some(text),
    }
}

/// Looks at what is pending up to the first directory: MP3 files are kept, other files dropped,
/// and an error ends the scan.
pub open spec fn walked<P>(s: ScanView<P>) -> ScanView<P>
    decreases s.pending.len(),
{
    if s.pending.len() == 0 {
        s
    } else {
        match s.pending[0] {
            Err(text) => failed(s, text),
            Ok(found) => if found.is_dir {
                s
            } else {
                walked(
                    ScanView {
                        pending: s.pending.skip(1),
                        files: if names_mp3(found.extension) {
                            s.files.push(found.place)
                        } else {
                            s.files
                        },
                        ..s
                    },
                )
            },
        }
    }
}

/// The next step of a scan and its state after it. All directories are walked before any file is
/// read.
pub open spec fn next_of<P>(s: ScanView<P>) -> (ScanView<P>, ScanStep<P>) {
    let w = walked(s);
    if w.pending.len() > 0 {
        (
            ScanView { pending: w.pending.skip(1), ..w },
            ScanStep::ListDirectory(w.pending[0]->Ok_0.place),
        )
    } else if w.files.len() > 0 {
        (ScanView { files: w.files.skip(1), ..w }, ScanStep::ReadFile(w.files[0]))
    } else {
        (w, ScanStep::Done)
    }
}

/// The state after a directory was listed: its entries come before everything else pending.
pub open spec fn listed_of<P>(
    s: ScanView<P>,
    listing: Result<Seq<ItemView<P>>, Seq<char>>,
) -> ScanView<P> {
    match listing {
        Ok(items) => ScanView { pending: items + s.pending, ..s },
        Err(text) => ScanView {
            pending: seq![Err::<FoundView<P>, Seq<char>>(text)] + s.pending,
            ..s
        },
    }
}

/// The entry for a file with the given contents; none if its tags can't be read.
pub open spec fn entry_of(path: Seq<char>, stem: Option<Seq<char>>, bytes: Seq<u8>) -> Option<
    EntryView,
> {
    match mpeg_audio(bytes) {
        Ok(audio) => {
            let tags = tags_of(audio, stem);
            Some(
                EntryView {
                    path,
                    artist: tags.artist,
                    album: tags.album,
                    year: tags.year,
                    track_number: tags.track_number,
                    title: tags.title,
                    duration: tags.duration,
                },
            )
        },
        Err(_) => None,
    }
}

/// The state after a file was read: one entry more, unless its contents could not be had or its
/// tags could not be read.
pub open spec fn file_read_of<P>(
    s: ScanView<P>,
    path: Seq<char>,
    stem: Option<Seq<char>>,
    contents: Option<Seq<u8>>,
) -> ScanView<P> {
    match contents {
        Some(bytes) => match entry_of(path, stem, bytes) {
            Some(entry) => ScanView { entries: s.entries.push(entry), ..s },
            None => s,
        },
        None => s,
    }
}

/// The contents that were read, if any.
pub open spec fn opt_bytes(contents: Option<Vec<u8>>) -> Option<Seq<u8>> {
    match contents {
        Some(bytes) => Some(bytes@),
        None => None,
    }
}

/// The path that was typed, with a leading `~` standing for the home directory where it is known.
pub open spec fn with_home(typed: Seq<char>, home: Option<Seq<char>>) -> Seq<char> {
    if home is Some && typed.len() > 0 && typed[0] == '~' && (typed.len() == 1 || typed[1] == '/') {
        home->0 + typed.skip(1)
    } else {
        typed
    }
}

/// Puts the home directory in place of a leading `~`.
pub fn expand_home(typed: &str, home: Option<String>) -> (r: String)
    ensures
        r@ == with_home(typed@, opt_text(home)),
{
    let chars = chars_of(typed);
    match home {
        Some(dir) => {
            if chars.len() > 0 && chars[0] == '~' && (chars.len() == 1 || chars[1] == '/') {
                let rest = text_of(&chars, 1, chars.len());
                dir.concat(rest.as_str())
            } else {
                typed.to_owned()
            }
        },
        None => typed.to_owned(),
    }
}

/// Starts a scan of `root`, whose path reads `path`, for mp3 files. It finds them recursively and
/// reads their tags, skipping any file whose tags can't be read. Does not touch the database or
/// any in-memory `Library`.
pub fn scan<P>(path: &str, exists: bool, root: FoundPath<P>) -> (r: Scan<P>)
    ensures
        r@.files == Seq::<P>::empty(),
        r@.entries == Seq::<EntryView>::empty(),
        exists ==> r@.pending == seq![Ok::<FoundView<P>, Seq<char>>(root@)] && r@.failure is None,
        !exists ==> r@.pending == Seq::<ItemView<P>>::empty() && r@.failure == Some(
            "path does not exist: "@ + path@,
        ),
{
    let mut pending: VecDeque<Item<P>> = VecDeque::new();
    let entries = ReadEntries { list: Vec::new() };
    let files: VecDeque<P> = VecDeque::new();
    assert(views(entries.list@) =~= Seq::<EntryView>::empty());
    if exists {
        pending.push_back(Ok(root));
        let r = Scan { pending, files, entries, failure: None };
        assert(r@.pending =~= seq![Ok::<FoundView<P>, Seq<char>>(root@)]);
        r
    } else {
        let message = "path does not exist: ".to_owned().concat(path);
        let r = Scan { pending, files, entries, failure: Some(LibraryError { message }) };
        assert(r@.pending =~= Seq::<ItemView<P>>::empty());
        r
    }
}

impl<P> Scan<P> {
    /// Looks at pending items up to the first directory.
    fn walk(&mut self)
        ensures
            final(self)@ == walked(old(self)@),
            final(self)@.pending.len() > 0 ==> final(self)@.pending[0] is Ok
                && final(self)@.pending[0]->Ok_0.is_dir,
    {
        let ghost start = self@;
        loop
            invariant
                walked(self@) == walked(start),
            ensures
                self@ == walked(start),
                self@.pending.len() > 0 ==> self@.pending[0] is Ok && self@.pending[0]->Ok_0.is_dir,
            decreases self.pending.len(),
        {
            let ghost before = self@;
            match self.pending.pop_front() {
                None => {
                    break;
                },
                Some(item) => {
                    proof {
                        assert(self@.pending =~= before.pending.skip(1));
                        assert(before.pending[0] == item_view(item));
                    }
                    match item {
                        Err(message) => {
                            self.pending = VecDeque::new();
                            self.files = VecDeque::new();
                            self.failure = Some(LibraryError { message });
                            assert(self@ =~= failed(before, message@));
                            break;
                        },
                        Ok(found) => {
                            if found.is_dir {
                                self.pending.push_front(Ok(found));
                                assert(self@ =~= before);
                                break;
                            }
                            if is_mp3(&found.extension) {
                                self.files.push_back(found.place);
                            }
                        },
                    }
                },
            }
        }
    }

    /// Decides what to do next.
    pub fn next(&mut self) -> (r: ScanStep<P>)
        ensures
            (final(self)@, r) == next_of(old(self)@),
    {
        self.walk();
        let ghost w = self@;
        match self.pending.pop_front() {
            Some(item) => {
                proof {
                    assert(w.pending[0] == item_view(item));
                    assert(self@.pending =~= w.pending.skip(1));
                }
                match item {
                    Ok(found) => ScanStep::ListDirectory(found.place),
                    Err(_) => ScanStep::Done,
                }
            },
            None => {
                match self.files.pop_front() {
                    Some(place) => {
                        assert(self@.files =~= w.files.skip(1));
                        ScanStep::ReadFile(place)
                    },
                    None => ScanStep::Done,
                }
            },
        }
    }

    /// Takes the listing of the directory that was asked for.
    pub fn listed(&mut self, listing: Result<Vec<Item<P>>, String>)
        ensures
            final(self)@ == listed_of(
                old(self)@,
                match listing {
                    Ok(items) => Ok::<Seq<ItemView<P>>, Seq<char>>(item_views(items@)),
                    Err(text) => Err::<Seq<ItemView<P>>, Seq<char>>(text@),
                },
            ),
    {
        let ghost before = self@;
        match listing {
            Err(text) => {
                self.pending.push_front(Err(text));
                assert(self@.pending =~= seq![Err::<FoundView<P>, Seq<char>>(text@)]
                    + before.pending);
            },
            Ok(items) => {
                let ghost all = items@;
                let mut items = items;
                assert(item_views(all.skip(all.len() as int)) + before.pending =~= before.pending);
                while items.len() > 0
                    invariant
                        items@.len() <= all.len(),
                        items@ == all.take(items@.len() as int),
                        self@ == (ScanView {
                            pending: item_views(all.skip(items@.len() as int)) + before.pending,
                            ..before
                        }),
                    decreases items.len(),
                {
                    let item = items.pop().unwrap();
                    let ghost now = self@;
                    self.pending.push_front(item);
                    proof {
                        let n = items@.len() as int;
                        assert(items@ =~= all.take(n));
                        assert(self@.pending =~= seq![item_view(item)] + now.pending);
                        assert(item_views(all.skip(n)) =~= seq![item_view(item)] + item_views(
                            all.skip(n + 1),
                        ));
                        assert(self@.pending =~= item_views(all.skip(n)) + before.pending);
                    }
                }
                assert(all.skip(0) =~= all);
            },
        }
    }

    /// Takes the contents of the file that was asked for, or `None` if it could not be read.
    pub fn file_read(&mut self, path: String, stem: Option<String>, contents: Option<Vec<u8>>)
        ensures
            final(self)@ == file_read_of(old(self)@, path@, opt_text(stem), opt_bytes(contents)),
            final(self)@.entries.len() > old(self)@.entries.len()
                ==> final(self)@.entries.last().duration.whole_millis(),
    {
        let ghost before = self@;
        if let Some(bytes) = contents {
            if let Ok(tags) = read_tags(path.as_str(), stem, bytes.as_slice()) {
                let entry = LibraryEntry {
                    path,
                    artist: tags.artist,
                    album: tags.album,
                    year: tags.year,
                    track_number: tags.track_number,
                    title: tags.title,
                    duration: tags.duration,
                };
                self.entries.push(entry);
                assert(self@.entries =~= before.entries.push(entry@));
            }
        }
    }

    /// Ends the scan with everything that was read, or with the error that stopped it.
    pub fn finish(self) -> (r: Result<Vec<LibraryEntry>, LibraryError>)
        ensures
            match self@.failure {
                None => r is Ok && views(r->Ok_0@) == self@.entries,
                Some(text) => r is Err && r->Err_0.message@ == text,
            },
            r matches Ok(entries) ==> forall|i: int|
                0 <= i < entries@.len() ==> (#[trigger] entries@[i]).duration.wf()
                    && entries@[i].duration.whole_millis(),
    {
        proof {
            use_type_invariant(&self.entries);
        }
        match self.failure {
            None => Ok(self.entries.list),
            Some(e) => Err(e),
        }
    }
}

/// A part of a disk: files, directories with what is in them, directories that can't be listed and
/// entries that can't be read.
pub enum Tree<P> {
    File { place: P, extension: Option<Seq<char>> },
    Directory { place: P, inside: Seq<Tree<P>> },
    Unlistable { place: P, text: Seq<char> },
    Unreadable { text: Seq<char> },
}

/// The MP3 files in a list of trees, in the order of the listings with what is inside a directory
/// in the directory's place; or the first error on the way.
pub open spec fn mp3s_in<P>(trees: Seq<Tree<P>>) -> Result<Seq<P>, Seq<char>>
    decreases trees,
{
    if trees.len() == 0 {
        Ok(Seq::empty())
    } else {
        let first: Result<Seq<P>, Seq<char>> = match trees[0] {
            Tree::File { place, extension } => if names_mp3(extension) {
                Ok(seq![place])
            } else {
                Ok(Seq::empty())
            },
            Tree::Directory { place, inside } => mp3s_in(inside),
            Tree::Unlistable { place, text } => Err(text),
            Tree::Unreadable { text } => Err(text),
        };
        match first {
            Err(text) => Err(text),
            Ok(a) => match mp3s_in(trees.skip(1)) {
                Err(text) => Err(text),
                Ok(b) => Ok(a + b),
            },
        }
    }
}

/// What listing each directory gives.
pub type Disk<P> = spec_fn(P) -> Result<Seq<ItemView<P>>, Seq<char>>;

/// Whether the items are those of the trees, and the disk lists every directory in them as the
/// trees say.
pub open spec fn shows<P>(disk: Disk<P>, items: Seq<ItemView<P>>, trees: Seq<Tree<P>>) -> bool
    decreases trees,
{
    &&& items.len() == trees.len()
    &&& trees.len() > 0 ==> {
        &&& shows(disk, items.skip(1), trees.skip(1))
        &&& match trees[0] {
            Tree::File { place, extension } => items[0] == Ok::<FoundView<P>, Seq<char>>(
                FoundView { place, extension, is_dir: false },
            ),
            Tree::Directory { place, inside } => {
                &&& items[0] is Ok
                &&& items[0]->Ok_0.place == place
                &&& items[0]->Ok_0.is_dir
                &&& disk(place) is Ok
                &&& shows(disk, disk(place)->Ok_0, inside)
            },
            Tree::Unlistable { place, text } => {
                &&& items[0] is Ok
                &&& items[0]->Ok_0.place == place
                &&& items[0]->Ok_0.is_dir
                &&& disk(place) == Err::<Seq<ItemView<P>>, Seq<char>>(text)
            },
            Tree::Unreadable { text } => items[0] == Err::<FoundView<P>, Seq<char>>(text),
        }
    }
}

/// How many directories are in the trees.
pub open spec fn directories_in<P>(trees: Seq<Tree<P>>) -> nat
    decreases trees,
{
    if trees.len() == 0 {
        0
    } else {
        directories_in(trees.skip(1)) + match trees[0] {
            Tree::Directory { place, inside } => 1 + directories_in(inside),
            Tree::Unlistable { place, text } => 1nat,
            _ => 0nat,
        }
    }
}

spec fn weight<P>(trees: Seq<Tree<P>>) -> nat
    decreases trees,
{
    if trees.len() == 0 {
        0
    } else {
        weight(trees.skip(1)) + match trees[0] {
            Tree::Directory { place, inside } => 1 + weight(inside),
            Tree::Unlistable { place, text } => 2nat,
            _ => 1nat,
        }
    }
}

/// Lists directories as long as the scan asks for one, at most `limit` times.
pub open spec fn walk_all<P>(disk: Disk<P>, s: ScanView<P>, limit: nat) -> ScanView<P>
    decreases limit,
{
    let (t, step) = next_of(s);
    match step {
        ScanStep::ListDirectory(place) => if limit > 0 {
            walk_all(disk, listed_of(t, disk(place)), (limit - 1) as nat)
        } else {
            s
        },
        _ => walked(s),
    }
}

/// Lists that are shown one after the other are shown together.
proof fn lemma_join<P>(
    disk: Disk<P>,
    xs: Seq<ItemView<P>>,
    a: Seq<Tree<P>>,
    ys: Seq<ItemView<P>>,
    b: Seq<Tree<P>>,
)
    requires
        shows(disk, xs, a),
        shows(disk, ys, b),
    ensures
        shows(disk, xs + ys, a + b),
        directories_in(a + b) == directories_in(a) + directories_in(b),
        weight(a + b) == weight(a) + weight(b),
        mp3s_in(a + b) == (match mp3s_in(a) {
            Err(text) => Err::<Seq<P>, Seq<char>>(text),
            Ok(x) => match mp3s_in(b) {
                Err(text) => Err(text),
                Ok(y) => Ok(x + y),
            },
        }),
    decreases a.len(),
{
    if a.len() == 0 {
        assert(a + b =~= b);
        assert(xs + ys =~= ys);
        if mp3s_in(b) is Ok {
            assert(Seq::<P>::empty() + mp3s_in(b)->Ok_0 =~= mp3s_in(b)->Ok_0);
        }
    } else {
        lemma_join(disk, xs.skip(1), a.skip(1), ys, b);
        assert((a + b).skip(1) =~= a.skip(1) + b);
        assert((xs + ys).skip(1) =~= xs.skip(1) + ys);
        if mp3s_in(a) is Ok && mp3s_in(b) is Ok {
            let rest = mp3s_in(a.skip(1))->Ok_0;
            let last = mp3s_in(b)->Ok_0;
            assert(mp3s_in(a + b)->Ok_0 =~= mp3s_in(a)->Ok_0 + last);
        }
    }
}

/// Walking visits the whole tree: it ends with every MP3 file in it, in order, or with the first
/// error on the way.
pub proof fn walk_finds_every_mp3<P>(
    disk: Disk<P>,
    s: ScanView<P>,
    trees: Seq<Tree<P>>,
    limit: nat,
)
    requires
        shows(disk, s.pending, trees),
        s.failure is None,
        limit >= directories_in(trees),
    ensures
        walk_all(disk, s, limit) == (match mp3s_in(trees) {
            Ok(found) => ScanView { pending: Seq::empty(), files: s.files + found, ..s },
            Err(text) => failed(s, text),
        }),
{
    lemma_walk(disk, s, trees, limit);
}

proof fn lemma_walk<P>(
    disk: Disk<P>,
    s: ScanView<P>,
    trees: Seq<Tree<P>>,
    limit: nat,
)
    requires
        shows(disk, s.pending, trees),
        s.failure is None,
        limit >= directories_in(trees),
    ensures
        walk_all(disk, s, limit) == (match mp3s_in(trees) {
            Ok(found) => ScanView { pending: Seq::empty(), files: s.files + found, ..s },
            Err(text) => failed(s, text),
        }),
    decreases weight(trees),
{
    if trees.len() == 0 {
        assert(s.pending =~= Seq::empty());
        assert(s.files + Seq::<P>::empty() =~= s.files);
    } else {
        let rest = trees.skip(1);
        let after = s.pending.skip(1);
        match trees[0] {
            Tree::File { place, extension } => {
                let s1 = ScanView {
                    pending: after,
                    files: if names_mp3(extension) {
                        s.files.push(place)
                    } else {
                        s.files
                    },
                    ..s
                };
                assert(walked(s) == walked(s1));
                lemma_walk(disk, s1, rest, limit);
                lemma_walk_all_same(disk, s, s1, trees, limit);
                if mp3s_in(rest) is Ok {
                    let found = mp3s_in(rest)->Ok_0;
                    assert(s1.files + found =~= s.files + mp3s_in(trees)->Ok_0);
                }
            },
            Tree::Directory { place, inside } => {
                let items = disk(place)->Ok_0;
                lemma_join(disk, items, inside, after, rest);
                let s2 = ScanView { pending: items + after, ..s };
                assert(walked(s) == s);
                lemma_walk(disk, s2, inside + rest, (limit - 1) as nat);
            },
            Tree::Unlistable { place, text } => {
                let broken = seq![Tree::<P>::Unreadable { text }];
                let items = seq![Err::<FoundView<P>, Seq<char>>(text)];
                assert(items.skip(1) =~= Seq::empty());
                assert(broken.skip(1) =~= Seq::empty());
                assert(shows(disk, items.skip(1), broken.skip(1)));
                assert(shows(disk, items, broken));
                assert(weight(broken.skip(1)) == 0);
                assert(weight(broken) == 1);
                assert(directories_in(broken.skip(1)) == 0);
                lemma_join(disk, items, broken, after, rest);
                let s2 = ScanView { pending: items + after, ..s };
                assert(walked(s) == s);
                lemma_walk(disk, s2, broken + rest, (limit - 1) as nat);
            },
            Tree::Unreadable { text } => {
                assert(walked(s) == failed(s, text));
            },
        }
    }
}

/// Two states that walk on to the same state are walked alike.
proof fn lemma_walk_all_same<P>(
    disk: Disk<P>,
    s: ScanView<P>,
    s1: ScanView<P>,
    trees: Seq<Tree<P>>,
    limit: nat,
)
    requires
        walked(s) == walked(s1),
        shows(disk, s.pending, trees),
        limit >= directories_in(trees),
    ensures
        walk_all(disk, s, limit) == walk_all(disk, s1, limit),
{
    assert(next_of(s) == next_of(s1));
    if limit == 0 {
        lemma_no_directory(disk, s, trees);
    }
}

/// Without directories, walking asks for none.
proof fn lemma_no_directory<P>(disk: Disk<P>, s: ScanView<P>, trees: Seq<Tree<P>>)
    requires
        shows(disk, s.pending, trees),
        directories_in(trees) == 0,
    ensures
        walked(s).pending.len() == 0,
    decreases trees.len(),
{
    if trees.len() > 0 {
        match trees[0] {
            Tree::File { place, extension } => {
                let s1 = ScanView {
                    pending: s.pending.skip(1),
                    files: if names_mp3(extension) {
                        s.files.push(place)
                    } else {
                        s.files
                    },
                    ..s
                };
                lemma_no_directory(disk, s1, trees.skip(1));
            },
            _ => {},
        }
    }
}

/// What reading a file gives: its path and stem as text, and its contents if they can be had.
pub struct FileOnDisk {
    pub path: Seq<char>,
    pub stem: Option<Seq<char>>,
    pub contents: Option<Seq<u8>>,
}

/// The entry for a file on disk, if its contents can be had and its tags can be read.
pub open spec fn entry_on_disk(file: FileOnDisk) -> Option<EntryView> {
    match file.contents {
        Some(bytes) => entry_of(file.path, file.stem, bytes),
        None => None,
    }
}

/// The entries of those files whose tags can be read, in order.
pub open spec fn readable_entries<P>(
    files: Seq<P>,
    disk: spec_fn(P) -> FileOnDisk,
) -> Seq<EntryView>
    decreases files.len(),
{
    if files.len() == 0 {
        Seq::empty()
    } else {
        let rest = readable_entries(files.skip(1), disk);
        match entry_on_disk(disk(files[0])) {
            Some(entry) => seq![entry] + rest,
            None => rest,
        }
    }
}

/// Reads files as long as the scan asks for one, at most `limit` times.
pub open spec fn read_all<P>(
    disk: spec_fn(P) -> FileOnDisk,
    s: ScanView<P>,
    limit: nat,
) -> ScanView<P>
    decreases limit,
{
    let (t, step) = next_of(s);
    match step {
        ScanStep::ReadFile(place) => if limit > 0 {
            let file = disk(place);
            read_all(
                disk,
                file_read_of(t, file.path, file.stem, file.contents),
                (limit - 1) as nat,
            )
        } else {
            s
        },
        _ => s,
    }
}

/// Reading the files that were found keeps exactly those whose tags can be read, in order.
pub proof fn reading_skips_only_unreadable_files<P>(
    disk: spec_fn(P) -> FileOnDisk,
    s: ScanView<P>,
    limit: nat,
)
    requires
        s.pending.len() == 0,
        limit >= s.files.len(),
    ensures
        read_all(disk, s, limit) == (ScanView {
            files: Seq::empty(),
            entries: s.entries + readable_entries(s.files, disk),
            ..s
        }),
    decreases s.files.len(),
{
    if s.files.len() == 0 {
        assert(s.files =~= Seq::empty());
        assert(s.entries + readable_entries(s.files, disk) =~= s.entries);
    } else {
        let file = disk(s.files[0]);
        let t = ScanView { files: s.files.skip(1), ..s };
        let u = file_read_of(t, file.path, file.stem, file.contents);
        reading_skips_only_unreadable_files(disk, u, (limit - 1) as nat);
        assert(u.entries + readable_entries(u.files, disk) =~= s.entries + readable_entries(
            s.files,
            disk,
        ));
    }
}

/// A scan gives the entries of all MP3 files below its root whose tags can be read, in order; or it
/// fails with the first error on the way, before any file is read.
pub proof fn scanning_reads_every_mp3<P>(
    disk: Disk<P>,
    files: spec_fn(P) -> FileOnDisk,
    s: ScanView<P>,
    trees: Seq<Tree<P>>,
    limit: nat,
)
    requires
        shows(disk, s.pending, trees),
        s.files.len() == 0,
        s.entries.len() == 0,
        s.failure is None,
        limit >= directories_in(trees),
        mp3s_in(trees) is Ok ==> limit >= mp3s_in(trees)->Ok_0.len(),
    ensures
        ({
            let end = read_all(files, walk_all(disk, s, limit), limit);
            match mp3s_in(trees) {
                Ok(found) => end.failure is None && end.entries == readable_entries(found, files),
                Err(text) => end.failure == Some(text) && end.entries.len() == 0,
            }
        }),
{
    walk_finds_every_mp3(disk, s, trees, limit);
    let walked_through = walk_all(disk, s, limit);
    if let Ok(found) = mp3s_in(trees) {
        assert(s.files + found =~= found);
        assert(s.entries + readable_entries(found, files) =~= readable_entries(found, files));
        reading_skips_only_unreadable_files(files, walked_through, limit);
    } else {
        reading_skips_only_unreadable_files(files, walked_through, limit);
        assert(readable_entries(walked_through.files, files) =~= Seq::empty());
    }
}

/// A file is an MP3 if and only if its extension is the letters m and p, large or small, and a 3.
pub proof fn mp3s_are_told_by_extension(extension: Seq<char>)
    ensures
        !names_mp3(None),
        names_mp3(Some(extension)) <==> extension.len() == 3 && (extension[0] == 'm' || extension[0]
            == 'M') && (extension[1] == 'p' || extension[1] == 'P') && extension[2] == '3',
{
    reveal_strlit("mp3");
    let mp3 = "mp3"@;
    if names_mp3(Some(extension)) {
        assert(same_letter(extension[0], mp3[0]));
        assert(same_letter(extension[1], mp3[1]));
        assert(same_letter(extension[2], mp3[2]));
    }
}

/// A file that is read as tagged audio becomes one more entry, the last, with the path of the file
/// and, field by field, what its tag says: artist, album, title, year and track number of the
/// primary tag, or of the first without one, and the duration of the file.
pub proof fn tagged_files_become_entries<P>(
    s: ScanView<P>,
    path: Seq<char>,
    stem: Option<Seq<char>>,
    bytes: Seq<u8>,
    audio: TaggedAudioView,
    tag: TagFieldsView,
)
    requires
        mpeg_audio(bytes) == Ok::<TaggedAudioView, Seq<char>>(audio),
        audio.primary_tag == Some(tag) || (audio.primary_tag is None && audio.first_tag == Some(
            tag,
        )),
    ensures
        ({
            let t = file_read_of(s, path, stem, Some(bytes));
            let entry = t.entries[s.entries.len() as int];
            &&& t.entries.len() == s.entries.len() + 1
            &&& t.entries.take(s.entries.len() as int) == s.entries
            &&& entry.path == path
            &&& is_field(entry.artist, tag.artist, "Unknown Artist"@)
            &&& is_field(entry.album, tag.album, "Unknown Album"@)
            &&& stem is Some ==> is_field(entry.title, tag.title, stem->0)
            &&& stem is None ==> is_field(entry.title, tag.title, "Unknown Title"@)
            &&& entry.year == tag.year
            &&& entry.track_number == tag.track_number
            &&& entry.duration == audio.duration
            &&& t.pending == s.pending
            &&& t.files == s.files
            &&& t.failure == s.failure
        }),
{
    tags_come_from_the_file(audio, tag, stem);
    let t = file_read_of(s, path, stem, Some(bytes));
    assert(t.entries.take(s.entries.len() as int) =~= s.entries);
}

/// A file that is read as audio without any tag becomes one more entry, too, by an unknown artist on
/// an unknown album and named like the file.
pub proof fn untagged_files_become_entries<P>(
    s: ScanView<P>,
    path: Seq<char>,
    stem: Option<Seq<char>>,
    bytes: Seq<u8>,
    audio: TaggedAudioView,
)
    requires
        mpeg_audio(bytes) == Ok::<TaggedAudioView, Seq<char>>(audio),
        audio.primary_tag is None,
        audio.first_tag is None,
    ensures
        ({
            let t = file_read_of(s, path, stem, Some(bytes));
            &&& t == (ScanView { entries: t.entries, ..s })
            &&& t.entries == s.entries.push(
                EntryView {
                    path,
                    artist: "Unknown Artist"@,
                    album: "Unknown Album"@,
                    year: None,
                    track_number: None,
                    title: if stem is Some {
                        stem->0
                    } else {
                        "Unknown Title"@
                    },
                    duration: audio.duration,
                },
            )
        }),
{
}

/// A file that can't be had, or that is no audio, is passed over.
pub proof fn unreadable_files_change_nothing<P>(
    s: ScanView<P>,
    path: Seq<char>,
    stem: Option<Seq<char>>,
    bytes: Seq<u8>,
)
    ensures
        file_read_of(s, path, stem, None) == s,
        mpeg_audio(bytes) is Err ==> file_read_of(s, path, stem, Some(bytes)) == s,
{
}

/// What a scan does next: a directory that comes first is listed; a file that comes first is kept
/// to be read if it is an MP3 and dropped otherwise; an error that comes first ends the scan, and
/// nothing is read then; and once nothing is pending the files are read in order.
pub proof fn what_comes_first_is_done_first<P>(s: ScanView<P>)
    ensures
        s.pending.len() > 0 && s.pending[0] is Ok && s.pending[0]->Ok_0.is_dir ==> next_of(s) == (
            ScanView { pending: s.pending.skip(1), ..s },
            ScanStep::ListDirectory(s.pending[0]->Ok_0.place),
        ),
        s.pending.len() > 0 && s.pending[0] is Ok && !s.pending[0]->Ok_0.is_dir ==> next_of(s)
            == next_of(
            ScanView {
                pending: s.pending.skip(1),
                files: if names_mp3(s.pending[0]->Ok_0.extension) {
                    s.files.push(s.pending[0]->Ok_0.place)
                } else {
                    s.files
                },
                ..s
            },
        ),
        s.pending.len() > 0 && s.pending[0] is Err ==> next_of(s) == (
            ScanView {
                pending: Seq::<ItemView<P>>::empty(),
                files: Seq::<P>::empty(),
                entries: s.entries,
                failure: Some(s.pending[0]->Err_0),
            },
            ScanStep::<P>::Done,
        ),
        s.pending.len() == 0 && s.files.len() > 0 ==> next_of(s) == (
            ScanView { files: s.files.skip(1), ..s },
            ScanStep::ReadFile(s.files[0]),
        ),
        s.pending.len() == 0 && s.files.len() == 0 ==> next_of(s) == (s, ScanStep::<P>::Done),
{
}

/// What a directory holds is looked at in order, before anything else that is pending; a directory
/// that can't be listed ends the scan with that error.
pub proof fn directories_are_entered_at_once<P>(
    s: ScanView<P>,
    items: Seq<ItemView<P>>,
    text: Seq<char>,
)
    ensures
        ({
            let t = listed_of(s, Ok::<Seq<ItemView<P>>, Seq<char>>(items));
            &&& t == (ScanView { pending: t.pending, ..s })
            &&& t.pending.take(items.len() as int) == items
            &&& t.pending.skip(items.len() as int) == s.pending
        }),
        ({
            let t = next_of(listed_of(s, Err::<Seq<ItemView<P>>, Seq<char>>(text)));
            &&& t.1 == ScanStep::<P>::Done
            &&& t.0.failure == Some(text)
            &&& t.0.entries == s.entries
        }),
{
    let t = listed_of(s, Ok::<Seq<ItemView<P>>, Seq<char>>(items));
    assert(t.pending.take(items.len() as int) =~= items);
    assert(t.pending.skip(items.len() as int) =~= s.pending);
}

/// The MP3 files in one tree: a file is one if its extension says so, and a directory has those that
/// are inside it. What can't be listed or read is an error.
pub proof fn mp3s_in_one_tree<P>(tree: Tree<P>)
    ensures
        match tree {
            Tree::File { place, extension } => mp3s_in(seq![tree]) == Ok::<Seq<P>, Seq<char>>(
                if names_mp3(extension) {
                    seq![place]
                } else {
                    Seq::empty()
                },
            ),
            Tree::Directory { place, inside } => mp3s_in(seq![tree]) == mp3s_in(inside),
            Tree::Unlistable { place, text } => mp3s_in(seq![tree]) == Err::<Seq<P>, Seq<char>>(
                text,
            ),
            Tree::Unreadable { text } => mp3s_in(seq![tree]) == Err::<Seq<P>, Seq<char>>(text),
        },
        mp3s_in(Seq::<Tree<P>>::empty()) == Ok::<Seq<P>, Seq<char>>(Seq::empty()),
{
    let one = seq![tree];
    assert(one.skip(1) =~= Seq::empty());
    assert(mp3s_in(one.skip(1)) == Ok::<Seq<P>, Seq<char>>(Seq::empty()));
    match tree {
        Tree::File { place, extension } => {
            assert(seq![place] + Seq::<P>::empty() =~= seq![place]);
            assert(Seq::<P>::empty() + Seq::<P>::empty() =~= Seq::empty());
        },
        Tree::Directory { place, inside } => {
            if mp3s_in(inside) is Ok {
                assert(mp3s_in(inside)->Ok_0 + Seq::<P>::empty() =~= mp3s_in(inside)->Ok_0);
            }
        },
        _ => {},
    }
}

/// The MP3 files in two lists of trees are those of the one and then those of the other; the first
/// error counts.
pub proof fn mp3s_in_two_lists<P>(a: Seq<Tree<P>>, b: Seq<Tree<P>>)
    ensures
        mp3s_in(a) is Err ==> mp3s_in(a + b) == mp3s_in(a),
        mp3s_in(a) is Ok && mp3s_in(b) is Err ==> mp3s_in(a + b) == mp3s_in(b),
        mp3s_in(a) is Ok && mp3s_in(b) is Ok ==> mp3s_in(a + b) == Ok::<Seq<P>, Seq<char>>(
            mp3s_in(a)->Ok_0 + mp3s_in(b)->Ok_0,
        ),
    decreases a.len(),
{
    if a.len() == 0 {
        assert(a + b =~= b);
        if mp3s_in(b) is Ok {
            assert(Seq::<P>::empty() + mp3s_in(b)->Ok_0 =~= mp3s_in(b)->Ok_0);
        }
    } else {
        mp3s_in_two_lists(a.skip(1), b);
        assert((a + b).skip(1) =~= a.skip(1) + b);
        if mp3s_in(a) is Ok && mp3s_in(b) is Ok {
            assert(mp3s_in(a + b)->Ok_0 =~= mp3s_in(a)->Ok_0 + mp3s_in(b)->Ok_0);
        }
    }
}

/// A disk shows a tree if what is found is what the tree says, and a directory lists what is inside.
pub proof fn disks_show_trees<P>(disk: Disk<P>, item: ItemView<P>, tree: Tree<P>)
    ensures
        shows(disk, Seq::empty(), Seq::empty()),
        shows(disk, seq![item], seq![tree]) <==> match tree {
            Tree::File { place, extension } => item == Ok::<FoundView<P>, Seq<char>>(
                FoundView { place, extension, is_dir: false },
            ),
            Tree::Directory { place, inside } => item is Ok && item->Ok_0.place == place
                && item->Ok_0.is_dir && disk(place) is Ok && shows(
                disk,
                disk(place)->Ok_0,
                inside,
            ),
            Tree::Unlistable { place, text } => item is Ok && item->Ok_0.place == place
                && item->Ok_0.is_dir && disk(place) == Err::<Seq<ItemView<P>>, Seq<char>>(text),
            Tree::Unreadable { text } => item == Err::<FoundView<P>, Seq<char>>(text),
        },
{
    assert(seq![item].skip(1) =~= Seq::empty());
    assert(seq![tree].skip(1) =~= Seq::empty());
    assert(shows(disk, seq![item].skip(1), seq![tree].skip(1)));
}

/// A leading `~` that is all of the path, or is followed by a slash, becomes the home directory, and
/// the rest stays. Every other path stays as it is.
pub proof fn only_a_leading_tilde_is_home(rest: Seq<char>, home: Seq<char>, typed: Seq<char>)
    ensures
        with_home(seq!['~', '/'] + rest, Some(home)) == home + seq!['/'] + rest,
        with_home(seq!['~'], Some(home)) == home,
        typed.len() > 0 && typed[0] != '~' ==> with_home(typed, Some(home)) == typed,
        typed.len() > 1 && typed[1] != '/' ==> with_home(typed, Some(home)) == typed,
        with_home(typed, None) == typed,
        with_home(Seq::empty(), Some(home)) == Seq::<char>::empty(),
{
    assert((seq!['~', '/'] + rest).skip(1) =~= seq!['/'] + rest);
    assert(home + (seq!['/'] + rest) =~= home + seq!['/'] + rest);
    assert(seq!['~'].skip(1) =~= Seq::empty());
    assert(home + Seq::<char>::empty() =~= home);
}

/// The model of what was found has each field in its place.
pub proof fn found_views_hold_the_fields<P>(found: FoundPath<P>, item: Item<P>, items: Seq<Item<P>>)
    ensures
        found@.place == found.place,
        found@.is_dir == found.is_dir,
        found.extension is None <==> found@.extension is None,
        found.extension is Some ==> found@.extension == Some(found.extension->0@),
        item matches Ok(f) ==> item_view(item) == Ok::<FoundView<P>, Seq<char>>(f@),
        item matches Err(t) ==> item_view(item) == Err::<FoundView<P>, Seq<char>>(t@),
        item_views(items).len() == items.len(),
        forall|i: int|
            0 <= i < items.len() ==> #[trigger] item_views(items)[i] == item_view(items[i]),
        opt_bytes(None) is None,
        forall|bytes: Vec<u8>| #[trigger] opt_bytes(Some(bytes)) == Some(bytes@),
{
}

} // verus!
