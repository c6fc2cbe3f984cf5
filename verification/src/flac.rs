//! FLAC metadata: the title, artist, album and track number of the first Vorbis comment
//! block of a tag that `metaflac` has read.
use vstd::prelude::*;
use crate::text::{digits_value, all_digits, views};

verus! {

#[verifier::external_type_specification]
#[verifier::external_body]
pub struct ExTag(metaflac::Tag);

#[verifier::external_type_specification]
#[verifier::external_body]
pub struct ExVorbisComment(metaflac::block::VorbisComment);

/// The comments of a Vorbis comment block: each key with its values in order.
pub uninterp spec fn vorbis_values(c: metaflac::block::VorbisComment) -> Map<Seq<char>, Seq<Seq<char>>>;

/// The comments of the first Vorbis comment block of a tag, if it has one.
pub uninterp spec fn tag_comments(tag: metaflac::Tag) -> Option<Map<Seq<char>, Seq<Seq<char>>>>;

/// `metaflac::Tag::vorbis_comments`: the first Vorbis comment block of the tag.
#[verifier::external_body]
fn tag_vorbis_comments(tag: &metaflac::Tag) -> (r: Option<&metaflac::block::VorbisComment>)
    ensures
        match r {
            Some(c) => tag_comments(*tag) == Some(vorbis_values(*c)),
            None => tag_comments(*tag) is None,
        },
{
    tag.vorbis_comments()
}

/// `metaflac::block::VorbisComment::get`: the values of `key`, if the block has it.
#[verifier::external_body]
fn vorbis_get(c: &metaflac::block::VorbisComment, key: &str) -> (r: Option<Vec<String>>)
    ensures
        match r {
            Some(v) => vorbis_values(*c).contains_key(key@) && views(v@) == vorbis_values(*c)[key@],
            None => !vorbis_values(*c).contains_key(key@),
        },
{
    match c.get(key) {
        Some(v) => Some(v.clone()),
        None => None,
    }
}

/// The `u32` that `str::parse::<u32>` reads from `s`: an optional `+` and one or more digits
/// whose value fits.
pub open spec fn parse_u32_of(s: Seq<char>) -> Option<u32> {
    let body = if s.len() > 0 && s[0] == '+' {
        s.drop_first()
    } else {
        s
    };
    if body.len() == 0 || !all_digits(body) || digits_value(body) > u32::MAX {
        None
    } else {
        Some(digits_value(body) as u32)
    }
}

/// The track number of comments `m`: the first `TRACKNUMBER` value read as a `u32`.
pub open spec fn track_of(m: Map<Seq<char>, Seq<Seq<char>>>) -> Option<u32> {
    if m.contains_key("TRACKNUMBER"@) && m["TRACKNUMBER"@].len() > 0 {
        parse_u32_of(m["TRACKNUMBER"@][0])
    } else {
        None
    }
}

/// `metaflac::block::VorbisComment::track`: the first `TRACKNUMBER` value, parsed as a `u32`.
#[verifier::external_body]
fn vorbis_track(c: &metaflac::block::VorbisComment) -> (r: Option<u32>)
    ensures
        r == track_of(vorbis_values(*c)),
{
    c.track()
}

/// The first value of `key` in comments `m`, if any.
pub open spec fn first_value(m: Map<Seq<char>, Seq<Seq<char>>>, key: Seq<char>) -> Option<Seq<char>> {
    if m.contains_key(key) && m[key].len() > 0 {
        Some(m[key][0])
    } else {
        None
    }
}

/// The metadata of a FLAC file.
#[derive(Debug)]
pub struct FlacFile {
    pub path: String,
    pub title: Option<String>,
    pub artist: Option<String>,
    pub album: Option<String>,
    pub track_number: Option<u32>,
}

/// `o` holds the text `s`, or both are absent.
pub open spec fn text_option(o: Option<String>, s: Option<Seq<char>>) -> bool {
    match s {
        Some(t) => o matches Some(v) && v@ == t,
        None => o is None,
    }
}

/// The first value of `key` in the block `c`.
fn first_of(c: &metaflac::block::VorbisComment, key: &str) -> (r: Option<String>)
    ensures
        text_option(r, first_value(vorbis_values(*c), key@)),
{
    match vorbis_get(c, key) {
        Some(v) => if v.len() > 0 {
            let s = v[0].clone();
            Some(s)
        } else {
            None
        },
        None => None,
    }
}

impl FlacFile {
    /// The metadata of the FLAC file at `path` whose tag is `tag`: the first `TITLE`,
    /// `ARTIST` and `ALBUM` values and the track number of the first Vorbis comment block;
    /// none of them without such a block.
    pub fn from_tag(path: String, tag: &metaflac::Tag) -> (r: FlacFile)
        ensures
            r.path@ == path@,
            match tag_comments(*tag) {
                Some(m) => text_option(r.title, first_value(m, "TITLE"@)) && text_option(
                    r.artist,
                    first_value(m, "ARTIST"@),
                ) && text_option(r.album, first_value(m, "ALBUM"@)) && r.track_number == track_of(m),
                None => r.title is None && r.artist is None && r.album is None && r.track_number is None,
            },
    {
        match tag_vorbis_comments(tag) {
            Some(c) => FlacFile {
                path,
                title: first_of(c, "TITLE"),
                artist: first_of(c, "ARTIST"),
                album: first_of(c, "ALBUM"),
                track_number: vorbis_track(c),
            },
            None => FlacFile { path, title: None, artist: None, album: None, track_number: None },
        }
    }
}

} // verus!
