//! Reading a song's tags from the bytes of an MP3 file.

use vstd::prelude::*;

use lofty::file::{AudioFile, FileType, TaggedFileExt};
use lofty::probe::Probe;
use lofty::tag::{Accessor, Tag};
use std::borrow::Cow;
use std::io::Cursor;

use crate::library::LibraryError;
use crate::text::{is_core, is_space, trim, trimmed, trimming_keeps_the_core};
use crate::time::Duration;

verus! {

/// What one tag of a file says, as far as it says it.
#[derive(Debug)]
pub struct TagFields {
    pub artist: Option<String>,
    pub title: Option<String>,
    pub album: Option<String>,
    pub year: Option<u16>,
    pub track_number: Option<u32>,
}

/// What is found in a file: how long it plays, its primary tag and its first tag of any kind.
#[derive(Debug)]
pub struct TaggedAudio {
    pub duration: Duration,
    pub primary_tag: Option<TagFields>,
    pub first_tag: Option<TagFields>,
}

/// A song's tags with every gap filled.
#[derive(Debug)]
pub struct SongTags {
    pub artist: String,
    pub title: String,
    pub album: String,
    pub year: Option<u16>,
    pub track_number: Option<u32>,
    pub duration: Duration,
}

/// What tag fields hold.
pub struct TagFieldsView {
    pub artist: Option<Seq<char>>,
    pub title: Option<Seq<char>>,
    pub album: Option<Seq<char>>,
    pub year: Option<u16>,
    pub track_number: Option<u32>,
}

/// What a tagged file holds.
pub struct TaggedAudioView {
    pub duration: Duration,
    pub primary_tag: Option<TagFieldsView>,
    pub first_tag: Option<TagFieldsView>,
}

/// What a song's tags hold.
pub struct SongTagsView {
    pub artist: Seq<char>,
    pub title: Seq<char>,
    pub album: Seq<char>,
    pub year: Option<u16>,
    pub track_number: Option<u32>,
    pub duration: Duration,
}

/// The text in an optional string.
pub open spec fn opt_text(s: Option<String>) -> Option<Seq<char>> {
    match s {
        Some(t) => Some(t@),
        None => None,
    }
}

impl View for TagFields {
    type V = TagFieldsView;

    open spec fn view(&self) -> TagFieldsView {
        TagFieldsView {
            artist: opt_text(self.artist),
            title: opt_text(self.title),
            album: opt_text(self.album),
            year: self.year,
            track_number: self.track_number,
        }
    }
}

/// The fields of an optional tag.
pub open spec fn opt_fields(t: Option<TagFields>) -> Option<TagFieldsView> {
    match t {
        Some(f) => Some(f@),
        None => None,
    }
}

impl View for TaggedAudio {
    type V = TaggedAudioView;

    open spec fn view(&self) -> TaggedAudioView {
        TaggedAudioView {
            duration: self.duration,
            primary_tag: opt_fields(self.primary_tag),
            first_tag: opt_fields(self.first_tag),
        }
    }
}

impl View for SongTags {
    type V = SongTagsView;

    open spec fn view(&self) -> SongTagsView {
        SongTagsView {
            artist: self.artist@,
            title: self.title@,
            album: self.album@,
            year: self.year,
            track_number: self.track_number,
            duration: self.duration,
        }
    }
}

/// What `lofty` finds when it reads these bytes as an MPEG file: the file's duration and tags, or
/// the text of its error.
pub uninterp spec fn mpeg_audio(bytes: Seq<u8>) -> Result<TaggedAudioView, Seq<char>>;

/// Reads bytes as an MPEG file with `lofty::probe::Probe::read`, which is what
/// `lofty::read_from_path` does with a file whose name ends in `.mp3`. The result is a function of
/// the bytes alone, as long as nobody changes lofty's global options. The duration of an MPEG file
/// is zero or comes from `std::time::Duration::from_millis`, so it is made of whole milliseconds.
/// What the bytes of a tag mean is not stated.
#[verifier::external_body]
fn read_mpeg(bytes: &[u8]) -> (r: Result<TaggedAudio, String>)
    ensures
        match r {
            Ok(audio) => mpeg_audio(bytes@) == Ok::<TaggedAudioView, Seq<char>>(audio@),
            Err(text) => mpeg_audio(bytes@) == Err::<TaggedAudioView, Seq<char>>(text@),
        },
        r matches Ok(audio) ==> audio.duration.whole_millis(),
{
    let file = Probe::with_file_type(Cursor::new(bytes), FileType::Mpeg).read().map_err(|e| e.to_string())?;
    let length = file.properties().duration();
    let fields = |t: &Tag| TagFields {
        artist: t.artist().map(Cow::into_owned),
        title: t.title().map(Cow::into_owned),
        album: t.album().map(Cow::into_owned),
        year: t.date().map(|d| d.year),
        track_number: t.track(),
    };
    Ok(TaggedAudio {
        duration: Duration { secs: length.as_secs(), nanos: length.subsec_nanos() },
        primary_tag: file.primary_tag().map(fields),
        first_tag: file.first_tag().map(fields),
    })
}

/// A value that is more than white space, or the fallback.
pub open spec fn filled(value: Option<Seq<char>>, fallback: Seq<char>) -> Seq<char> {
    match value {
        Some(s) => if trimmed(s).len() > 0 {
            s
        } else {
            fallback
        },
        None => fallback,
    }
}

/// The tag that counts: the primary one, or else the first of any kind.
pub open spec fn chosen_tag(audio: TaggedAudioView) -> Option<TagFieldsView> {
    match audio.primary_tag {
        Some(t) => Some(t),
        None => audio.first_tag,
    }
}

/// A song's tags: the chosen tag, with "Unknown Artist", "Unknown Album" and the file stem (or
/// "Unknown Title", without one) where it says nothing.
pub open spec fn tags_of(audio: TaggedAudioView, stem: Option<Seq<char>>) -> SongTagsView {
    let tag = chosen_tag(audio);
    let untitled = match stem {
        Some(s) => s,
        None => "Unknown Title"@,
    };
    match tag {
        Some(t) => SongTagsView {
            artist: filled(t.artist, "Unknown Artist"@),
            title: filled(t.title, untitled),
            album: filled(t.album, "Unknown Album"@),
            year: t.year,
            track_number: t.track_number,
            duration: audio.duration,
        },
        None => SongTagsView {
            artist: "Unknown Artist"@,
            title: untitled,
            album: "Unknown Album"@,
            year: None,
            track_number: None,
            duration: audio.duration,
        },
    }
}

fn fill(value: Option<String>, fallback: String) -> (r: String)
    ensures
        r@ == filled(opt_text(value), fallback@),
{
    match value {
        Some(s) => {
            let core = trim(s.as_str());
            if core.as_str().is_empty() {
                fallback
            } else {
                s
            }
        },
        None => fallback,
    }
}

/// Fills the gaps in what was found in a file.
pub fn song_tags(audio: TaggedAudio, stem: Option<String>) -> (r: SongTags)
    ensures
        r@ == tags_of(audio@, opt_text(stem)),
{
    let untitled = match stem {
        Some(s) => s,
        None => "Unknown Title".to_owned(),
    };
    let tag = match audio.primary_tag {
        Some(t) => Some(t),
        None => audio.first_tag,
    };
    match tag {
        Some(t) => SongTags {
            artist: fill(t.artist, "Unknown Artist".to_owned()),
            title: fill(t.title, untitled),
            album: fill(t.album, "Unknown Album".to_owned()),
            year: t.year,
            track_number: t.track_number,
            duration: audio.duration,
        },
        None => SongTags {
            artist: "Unknown Artist".to_owned(),
            title: untitled,
            album: "Unknown Album".to_owned(),
            year: None,
            track_number: None,
            duration: audio.duration,
        },
    }
}

/// Reads artist/title/album/year/track-number/duration from an mp3's ID3 tags, falling back to
/// "Unknown Artist" / "Unknown Album" / the file stem when tags are missing.
pub fn read_tags(path: &str, stem: Option<String>, bytes: &[u8]) -> (r: Result<
    SongTags,
    LibraryError,
>)
    ensures
        match mpeg_audio(bytes@) {
            Ok(audio) => r is Ok && r->Ok_0@ == tags_of(audio, opt_text(stem)),
            Err(text) => r is Err && r->Err_0.message@ == path@ + ": "@ + text,
        },
        r matches Ok(tags) ==> tags.duration.wf() && tags.duration.whole_millis(),
{
    match read_mpeg(bytes) {
        Ok(audio) => Ok(song_tags(audio, stem)),
        Err(text) => {
            let message = path.to_owned().concat(": ").concat(text.as_str());
            Err(LibraryError { message })
        },
    }
}

/// Whether a text has a character that is not white space.
pub open spec fn says_something(s: Seq<char>) -> bool {
    exists|k: int| 0 <= k < s.len() && !is_space(#[trigger] s[k])
}

proof fn lemma_says_something(s: Seq<char>)
    ensures
        trimmed(s).len() > 0 <==> says_something(s),
{
    trimming_keeps_the_core(s);
    let (i, j) = choose|i: int, j: int| #[trigger]
        is_core(s, i, j) && trimmed(s) == s.subrange(i, j);
    if i < j {
        assert(!is_space(s[i]));
    }
}

/// What a field of a tag is taken for: the field itself if it says something, else the fallback.
pub open spec fn is_field(
    shown: Seq<char>,
    field: Option<Seq<char>>,
    fallback: Seq<char>,
) -> bool {
    &&& field is Some && says_something(field->0) ==> shown == field->0
    &&& field is None || !says_something(field->0) ==> shown == fallback
}

/// A song has what the primary tag says, or without one what the first tag says, field by field:
/// artist from artist, title from title, album from album, year and track number as they are. Where
/// the tag says nothing, the artist and the album are unknown, and the title is the file's stem or
/// unknown without one. The duration is the file's.
pub proof fn tags_come_from_the_file(
    audio: TaggedAudioView,
    tag: TagFieldsView,
    stem: Option<Seq<char>>,
)
    requires
        audio.primary_tag == Some(tag) || (audio.primary_tag is None && audio.first_tag == Some(
            tag,
        )),
    ensures
        ({
            let tags = tags_of(audio, stem);
            &&& is_field(tags.artist, tag.artist, "Unknown Artist"@)
            &&& is_field(tags.album, tag.album, "Unknown Album"@)
            &&& stem is Some ==> is_field(tags.title, tag.title, stem->0)
            &&& stem is None ==> is_field(tags.title, tag.title, "Unknown Title"@)
            &&& tags.year == tag.year
            &&& tags.track_number == tag.track_number
            &&& tags.duration == audio.duration
        }),
{
    if tag.artist is Some {
        lemma_says_something(tag.artist->0);
    }
    if tag.album is Some {
        lemma_says_something(tag.album->0);
    }
    if tag.title is Some {
        lemma_says_something(tag.title->0);
    }
}

/// A file without any tag gives a song by an unknown artist on an unknown album, named like the
/// file.
pub proof fn untagged_files_are_unknown(audio: TaggedAudioView, stem: Option<Seq<char>>)
    requires
        audio.primary_tag is None,
        audio.first_tag is None,
    ensures
        tags_of(audio, stem).artist == "Unknown Artist"@,
        tags_of(audio, stem).album == "Unknown Album"@,
        stem is Some ==> tags_of(audio, stem).title == stem->0,
        stem is None ==> tags_of(audio, stem).title == "Unknown Title"@,
        tags_of(audio, stem).year is None,
        tags_of(audio, stem).track_number is None,
        tags_of(audio, stem).duration == audio.duration,
{
}

/// The model of a tag, of a file and of a song's tags has each field in its place.
pub proof fn tag_views_hold_the_fields(tag: TagFields, audio: TaggedAudio, tags: SongTags)
    ensures
        tag.artist is None <==> tag@.artist is None,
        tag.title is None <==> tag@.title is None,
        tag.album is None <==> tag@.album is None,
        tag.artist is Some ==> tag@.artist == Some(tag.artist->0@),
        tag.title is Some ==> tag@.title == Some(tag.title->0@),
        tag.album is Some ==> tag@.album == Some(tag.album->0@),
        tag@.year == tag.year,
        tag@.track_number == tag.track_number,
        audio@.duration == audio.duration,
        audio.primary_tag is None <==> audio@.primary_tag is None,
        audio.first_tag is None <==> audio@.first_tag is None,
        audio.primary_tag is Some ==> audio@.primary_tag == Some(audio.primary_tag->0@),
        audio.first_tag is Some ==> audio@.first_tag == Some(audio.first_tag->0@),
        tags@.artist == tags.artist@,
        tags@.title == tags.title@,
        tags@.album == tags.album@,
        tags@.year == tags.year,
        tags@.track_number == tags.track_number,
        tags@.duration == tags.duration,
{
}

} // verus!
