use vstd::prelude::*;
use vstd::string::StringExecFns;

use crate::text::str_eq;

verus! {

/// The standard tags that the library knows, as `symphonia` names them.
#[derive(Debug, Clone, Copy, PartialEq, Eq, Hash, Structural)]
pub enum Tag {
    Album,
    AlbumArtist,
    Arranger,
    Artist,
    Bpm,
    Composer,
    Conductor,
    Date,
    DiscNumber,
    DiscTotal,
    Ensemble,
    Genre,
    Label,
    Language,
    Lyricist,
    Mood,
    MovementName,
    MovementNumber,
    Part,
    PartTotal,
    Performer,
    Producer,
    Script,
    SortAlbum,
    SortAlbumArtist,
    SortArtist,
    SortComposer,
    SortTrackTitle,
    TrackNumber,
    TrackTitle,
}

/// How the values of a tag compare.
#[derive(Debug, Clone, Copy, PartialEq, Eq, Hash, Structural)]
pub enum TagKeyKind {
    /// As text.
    String,
    /// As whole numbers.
    Integer,
    /// As the first of two numbers, `3/12` being track 3 out of 12.
    OutOf,
}

/// A supported tag together with the way its values compare.
#[derive(Debug, Clone, Copy, PartialEq, Eq, Hash, Structural)]
pub struct TagKey {
    pub key: Tag,
    pub kind: TagKeyKind,
}

/// The name under which clients write a tag: its `symphonia` name in lower case.
pub open spec fn tag_name(t: Tag) -> Seq<char> {
    match t {
        Tag::Album => "album"@,
        Tag::AlbumArtist => "albumartist"@,
        Tag::Arranger => "arranger"@,
        Tag::Artist => "artist"@,
        Tag::Bpm => "bpm"@,
        Tag::Composer => "composer"@,
        Tag::Conductor => "conductor"@,
        Tag::Date => "date"@,
        Tag::DiscNumber => "discnumber"@,
        Tag::DiscTotal => "disctotal"@,
        Tag::Ensemble => "ensemble"@,
        Tag::Genre => "genre"@,
        Tag::Label => "label"@,
        Tag::Language => "language"@,
        Tag::Lyricist => "lyricist"@,
        Tag::Mood => "mood"@,
        Tag::MovementName => "movementname"@,
        Tag::MovementNumber => "movementnumber"@,
        Tag::Part => "part"@,
        Tag::PartTotal => "parttotal"@,
        Tag::Performer => "performer"@,
        Tag::Producer => "producer"@,
        Tag::Script => "script"@,
        Tag::SortAlbum => "sortalbum"@,
        Tag::SortAlbumArtist => "sortalbumartist"@,
        Tag::SortArtist => "sortartist"@,
        Tag::SortComposer => "sortcomposer"@,
        Tag::SortTrackTitle => "sorttracktitle"@,
        Tag::TrackNumber => "tracknumber"@,
        Tag::TrackTitle => "tracktitle"@,
    }
}

/// The tag written `s`, if any.
pub open spec fn tag_of_name(s: Seq<char>) -> Option<Tag> {
    if s == "album"@ {
        Some(Tag::Album)
    } else if s == "albumartist"@ {
        Some(Tag::AlbumArtist)
    } else if s == "arranger"@ {
        Some(Tag::Arranger)
    } else if s == "artist"@ {
        Some(Tag::Artist)
    } else if s == "bpm"@ {
        Some(Tag::Bpm)
    } else if s == "composer"@ {
        Some(Tag::Composer)
    } else if s == "conductor"@ {
        Some(Tag::Conductor)
    } else if s == "date"@ {
        Some(Tag::Date)
    } else if s == "discnumber"@ {
        Some(Tag::DiscNumber)
    } else if s == "disctotal"@ {
        Some(Tag::DiscTotal)
    } else if s == "ensemble"@ {
        Some(Tag::Ensemble)
    } else if s == "genre"@ {
        Some(Tag::Genre)
    } else if s == "label"@ {
        Some(Tag::Label)
    } else if s == "language"@ {
        Some(Tag::Language)
    } else if s == "lyricist"@ {
        Some(Tag::Lyricist)
    } else if s == "mood"@ {
        Some(Tag::Mood)
    } else if s == "movementname"@ {
        Some(Tag::MovementName)
    } else if s == "movementnumber"@ {
        Some(Tag::MovementNumber)
    } else if s == "part"@ {
        Some(Tag::Part)
    } else if s == "parttotal"@ {
        Some(Tag::PartTotal)
    } else if s == "performer"@ {
        Some(Tag::Performer)
    } else if s == "producer"@ {
        Some(Tag::Producer)
    } else if s == "script"@ {
        Some(Tag::Script)
    } else if s == "sortalbum"@ {
        Some(Tag::SortAlbum)
    } else if s == "sortalbumartist"@ {
        Some(Tag::SortAlbumArtist)
    } else if s == "sortartist"@ {
        Some(Tag::SortArtist)
    } else if s == "sortcomposer"@ {
        Some(Tag::SortComposer)
    } else if s == "sorttracktitle"@ {
        Some(Tag::SortTrackTitle)
    } else if s == "tracknumber"@ {
        Some(Tag::TrackNumber)
    } else if s == "tracktitle"@ {
        Some(Tag::TrackTitle)
    } else {
        None
    }
}

/// How the values of a tag compare: `bpm` as numbers, disc, movement and track
/// numbers as "n out of m", the rest as text.
pub open spec fn kind_of(t: Tag) -> TagKeyKind {
    match t {
        Tag::Bpm => TagKeyKind::Integer,
        Tag::DiscNumber | Tag::MovementNumber | Tag::TrackNumber => TagKeyKind::OutOf,
        _ => TagKeyKind::String,
    }
}

/// The key for the tag written `s`, if it is a supported one.
pub open spec fn tag_key_of_name(s: Seq<char>) -> Option<TagKey> {
    match tag_of_name(s) {
        Some(t) => Some(TagKey { key: t, kind: kind_of(t) }),
        None => None,
    }
}

/// The position of a tag in the list of supported tags.
pub open spec fn tag_index(t: Tag) -> u8 {
    match t {
        Tag::Album => 0,
        Tag::AlbumArtist => 1,
        Tag::Arranger => 2,
        Tag::Artist => 3,
        Tag::Bpm => 4,
        Tag::Composer => 5,
        Tag::Conductor => 6,
        Tag::Date => 7,
        Tag::DiscNumber => 8,
        Tag::DiscTotal => 9,
        Tag::Ensemble => 10,
        Tag::Genre => 11,
        Tag::Label => 12,
        Tag::Language => 13,
        Tag::Lyricist => 14,
        Tag::Mood => 15,
        Tag::MovementName => 16,
        Tag::MovementNumber => 17,
        Tag::Part => 18,
        Tag::PartTotal => 19,
        Tag::Performer => 20,
        Tag::Producer => 21,
        Tag::Script => 22,
        Tag::SortAlbum => 23,
        Tag::SortAlbumArtist => 24,
        Tag::SortArtist => 25,
        Tag::SortComposer => 26,
        Tag::SortTrackTitle => 27,
        Tag::TrackNumber => 28,
        Tag::TrackTitle => 29,
    }
}

/// A name that is not a supported tag.
#[derive(Debug)]
pub struct InvalidTag(pub String);

impl InvalidTag {
    /// The text this error is shown as.
    pub fn to_message(&self) -> (r: String)
        ensures
            r@ == "invalid tag `"@ + self.0@ + "`"@,
    {
        let mut r = String::from_str("invalid tag `");
        r.append(self.0.as_str());
        r.append("`");
        r
    }
}

impl Tag {
    /// The position of this tag in the list of supported tags.
    pub fn index(&self) -> (r: u8)
        ensures
            r == tag_index(*self),
            r < 30,
    {
        match self {
            Tag::Album => 0,
            Tag::AlbumArtist => 1,
            Tag::Arranger => 2,
            Tag::Artist => 3,
            Tag::Bpm => 4,
            Tag::Composer => 5,
            Tag::Conductor => 6,
            Tag::Date => 7,
            Tag::DiscNumber => 8,
            Tag::DiscTotal => 9,
            Tag::Ensemble => 10,
            Tag::Genre => 11,
            Tag::Label => 12,
            Tag::Language => 13,
            Tag::Lyricist => 14,
            Tag::Mood => 15,
            Tag::MovementName => 16,
            Tag::MovementNumber => 17,
            Tag::Part => 18,
            Tag::PartTotal => 19,
            Tag::Performer => 20,
            Tag::Producer => 21,
            Tag::Script => 22,
            Tag::SortAlbum => 23,
            Tag::SortAlbumArtist => 24,
            Tag::SortArtist => 25,
            Tag::SortComposer => 26,
            Tag::SortTrackTitle => 27,
            Tag::TrackNumber => 28,
            Tag::TrackTitle => 29,
        }
    }
}

impl TagKey {
    /// The key for the tag written `s`, or an error naming `s`.
    pub fn try_from_name(s: &str) -> (r: Result<TagKey, InvalidTag>)
        ensures
            match tag_key_of_name(s@) {
                Some(k) => r == Ok::<TagKey, InvalidTag>(k),
                None => r matches Err(e) && e.0@ == s@,
            },
    {
        let key = 
        if str_eq(s, "album") {
            Tag::Album
        } else if str_eq(s, "albumartist") {
            Tag::AlbumArtist
        } else if str_eq(s, "arranger") {
            Tag::Arranger
        } else if str_eq(s, "artist") {
            Tag::Artist
        } else if str_eq(s, "bpm") {
            Tag::Bpm
        } else if str_eq(s, "composer") {
            Tag::Composer
        } else if str_eq(s, "conductor") {
            Tag::Conductor
        } else if str_eq(s, "date") {
            Tag::Date
        } else if str_eq(s, "discnumber") {
            Tag::DiscNumber
        } else if str_eq(s, "disctotal") {
            Tag::DiscTotal
        } else if str_eq(s, "ensemble") {
            Tag::Ensemble
        } else if str_eq(s, "genre") {
            Tag::Genre
        } else if str_eq(s, "label") {
            Tag::Label
        } else if str_eq(s, "language") {
            Tag::Language
        } else if str_eq(s, "lyricist") {
            Tag::Lyricist
        } else if str_eq(s, "mood") {
            Tag::Mood
        } else if str_eq(s, "movementname") {
            Tag::MovementName
        } else if str_eq(s, "movementnumber") {
            Tag::MovementNumber
        } else if str_eq(s, "part") {
            Tag::Part
        } else if str_eq(s, "parttotal") {
            Tag::PartTotal
        } else if str_eq(s, "performer") {
            Tag::Performer
        } else if str_eq(s, "producer") {
            Tag::Producer
        } else if str_eq(s, "script") {
            Tag::Script
        } else if str_eq(s, "sortalbum") {
            Tag::SortAlbum
        } else if str_eq(s, "sortalbumartist") {
            Tag::SortAlbumArtist
        } else if str_eq(s, "sortartist") {
            Tag::SortArtist
        } else if str_eq(s, "sortcomposer") {
            Tag::SortComposer
        } else if str_eq(s, "sorttracktitle") {
            Tag::SortTrackTitle
        } else if str_eq(s, "tracknumber") {
            Tag::TrackNumber
        } else if str_eq(s, "tracktitle") {
            Tag::TrackTitle
        } else {
            return Err(InvalidTag(String::from_str(s)));
        };
        let kind = match key {
            Tag::Bpm => TagKeyKind::Integer,
            Tag::DiscNumber | Tag::MovementNumber | Tag::TrackNumber => TagKeyKind::OutOf,
            _ => TagKeyKind::String,
        };
        Ok(TagKey { key, kind })
    }

    /// The name under which clients write this tag.
    pub fn name(&self) -> (r: String)
        ensures
            r@ == tag_name(self.key),
    {
        match self.key {
            Tag::Album => String::from_str("album"),
            Tag::AlbumArtist => String::from_str("albumartist"),
            Tag::Arranger => String::from_str("arranger"),
            Tag::Artist => String::from_str("artist"),
            Tag::Bpm => String::from_str("bpm"),
            Tag::Composer => String::from_str("composer"),
            Tag::Conductor => String::from_str("conductor"),
            Tag::Date => String::from_str("date"),
            Tag::DiscNumber => String::from_str("discnumber"),
            Tag::DiscTotal => String::from_str("disctotal"),
            Tag::Ensemble => String::from_str("ensemble"),
            Tag::Genre => String::from_str("genre"),
            Tag::Label => String::from_str("label"),
            Tag::Language => String::from_str("language"),
            Tag::Lyricist => String::from_str("lyricist"),
            Tag::Mood => String::from_str("mood"),
            Tag::MovementName => String::from_str("movementname"),
            Tag::MovementNumber => String::from_str("movementnumber"),
            Tag::Part => String::from_str("part"),
            Tag::PartTotal => String::from_str("parttotal"),
            Tag::Performer => String::from_str("performer"),
            Tag::Producer => String::from_str("producer"),
            Tag::Script => String::from_str("script"),
            Tag::SortAlbum => String::from_str("sortalbum"),
            Tag::SortAlbumArtist => String::from_str("sortalbumartist"),
            Tag::SortArtist => String::from_str("sortartist"),
            Tag::SortComposer => String::from_str("sortcomposer"),
            Tag::SortTrackTitle => String::from_str("sorttracktitle"),
            Tag::TrackNumber => String::from_str("tracknumber"),
            Tag::TrackTitle => String::from_str("tracktitle"),
        }
    }
}


/// Each tag is read back from its name: the name differs from every name tried
/// before it.
pub proof fn lemma_tag_name_roundtrip(t: Tag)
    ensures
        tag_of_name(tag_name(t)) == Some(t),
{
    match t {
        Tag::Album => {
            reveal_strlit("album");
            assert(tag_name(Tag::Album) == "album"@);
        },
        Tag::AlbumArtist => {
            reveal_strlit("albumartist");
            assert(tag_name(Tag::AlbumArtist) == "albumartist"@);
            reveal_strlit("album");
            assert("albumartist"@.len() != "album"@.len());
        },
        Tag::Arranger => {
            reveal_strlit("arranger");
            assert(tag_name(Tag::Arranger) == "arranger"@);
            reveal_strlit("albumartist");
            assert("arranger"@.len() != "albumartist"@.len());
            reveal_strlit("album");
            assert("arranger"@.len() != "album"@.len());
        },
        Tag::Artist => {
            reveal_strlit("artist");
            assert(tag_name(Tag::Artist) == "artist"@);
            reveal_strlit("arranger");
            assert("artist"@.len() != "arranger"@.len());
            reveal_strlit("albumartist");
            assert("artist"@.len() != "albumartist"@.len());
            reveal_strlit("album");
            assert("artist"@.len() != "album"@.len());
        },
        Tag::Bpm => {
            reveal_strlit("bpm");
            assert(tag_name(Tag::Bpm) == "bpm"@);
            reveal_strlit("artist");
            assert("bpm"@.len() != "artist"@.len());
            reveal_strlit("arranger");
            assert("bpm"@.len() != "arranger"@.len());
            reveal_strlit("albumartist");
            assert("bpm"@.len() != "albumartist"@.len());
            reveal_strlit("album");
            assert("bpm"@.len() != "album"@.len());
        },
        Tag::Composer => {
            reveal_strlit("composer");
            assert(tag_name(Tag::Composer) == "composer"@);
            reveal_strlit("bpm");
            assert("composer"@.len() != "bpm"@.len());
            reveal_strlit("artist");
            assert("composer"@.len() != "artist"@.len());
            reveal_strlit("arranger");
            assert("composer"@[0] != "arranger"@[0]);
            reveal_strlit("albumartist");
            assert("composer"@.len() != "albumartist"@.len());
            reveal_strlit("album");
            assert("composer"@.len() != "album"@.len());
        },
        Tag::Conductor => {
            reveal_strlit("conductor");
            assert(tag_name(Tag::Conductor) == "conductor"@);
            reveal_strlit("composer");
            assert("conductor"@.len() != "composer"@.len());
            reveal_strlit("bpm");
            assert("conductor"@.len() != "bpm"@.len());
            reveal_strlit("artist");
            assert("conductor"@.len() != "artist"@.len());
            reveal_strlit("arranger");
            assert("conductor"@.len() != "arranger"@.len());
            reveal_strlit("albumartist");
            assert("conductor"@.len() != "albumartist"@.len());
            reveal_strlit("album");
            assert("conductor"@.len() != "album"@.len());
        },
        Tag::Date => {
            reveal_strlit("date");
            assert(tag_name(Tag::Date) == "date"@);
            reveal_strlit("conductor");
            assert("date"@.len() != "conductor"@.len());
            reveal_strlit("composer");
            assert("date"@.len() != "composer"@.len());
            reveal_strlit("bpm");
            assert("date"@.len() != "bpm"@.len());
            reveal_strlit("artist");
            assert("date"@.len() != "artist"@.len());
            reveal_strlit("arranger");
            assert("date"@.len() != "arranger"@.len());
            reveal_strlit("albumartist");
            assert("date"@.len() != "albumartist"@.len());
            reveal_strlit("album");
            assert("date"@.len() != "album"@.len());
        },
        Tag::DiscNumber => {
            reveal_strlit("discnumber");
            assert(tag_name(Tag::DiscNumber) == "discnumber"@);
            reveal_strlit("date");
            assert("discnumber"@.len() != "date"@.len());
            reveal_strlit("conductor");
            assert("discnumber"@.len() != "conductor"@.len());
            reveal_strlit("composer");
            assert("discnumber"@.len() != "composer"@.len());
            reveal_strlit("bpm");
            assert("discnumber"@.len() != "bpm"@.len());
            reveal_strlit("artist");
            assert("discnumber"@.len() != "artist"@.len());
            reveal_strlit("arranger");
            assert("discnumber"@.len() != "arranger"@.len());
            reveal_strlit("albumartist");
            assert("discnumber"@.len() != "albumartist"@.len());
            reveal_strlit("album");
            assert("discnumber"@.len() != "album"@.len());
        },
        Tag::DiscTotal => {
            reveal_strlit("disctotal");
            assert(tag_name(Tag::DiscTotal) == "disctotal"@);
            reveal_strlit("discnumber");
            assert("disctotal"@.len() != "discnumber"@.len());
            reveal_strlit("date");
            assert("disctotal"@.len() != "date"@.len());
            reveal_strlit("conductor");
            assert("disctotal"@[0] != "conductor"@[0]);
            reveal_strlit("composer");
            assert("disctotal"@.len() != "composer"@.len());
            reveal_strlit("bpm");
            assert("disctotal"@.len() != "bpm"@.len());
            reveal_strlit("artist");
            assert("disctotal"@.len() != "artist"@.len());
            reveal_strlit("arranger");
            assert("disctotal"@.len() != "arranger"@.len());
            reveal_strlit("albumartist");
            assert("disctotal"@.len() != "albumartist"@.len());
            reveal_strlit("album");
            assert("disctotal"@.len() != "album"@.len());
        },
        Tag::Ensemble => {
            reveal_strlit("ensemble");
            assert(tag_name(Tag::Ensemble) == "ensemble"@);
            reveal_strlit("disctotal");
            assert("ensemble"@.len() != "disctotal"@.len());
            reveal_strlit("discnumber");
            assert("ensemble"@.len() != "discnumber"@.len());
            reveal_strlit("date");
            assert("ensemble"@.len() != "date"@.len());
            reveal_strlit("conductor");
            assert("ensemble"@.len() != "conductor"@.len());
            reveal_strlit("composer");
            assert("ensemble"@[0] != "composer"@[0]);
            reveal_strlit("bpm");
            assert("ensemble"@.len() != "bpm"@.len());
            reveal_strlit("artist");
            assert("ensemble"@.len() != "artist"@.len());
            reveal_strlit("arranger");
            assert("ensemble"@[0] != "arranger"@[0]);
            reveal_strlit("albumartist");
            assert("ensemble"@.len() != "albumartist"@.len());
            reveal_strlit("album");
            assert("ensemble"@.len() != "album"@.len());
        },
        Tag::Genre => {
            reveal_strlit("genre");
            assert(tag_name(Tag::Genre) == "genre"@);
            reveal_strlit("ensemble");
            assert("genre"@.len() != "ensemble"@.len());
            reveal_strlit("disctotal");
            assert("genre"@.len() != "disctotal"@.len());
            reveal_strlit("discnumber");
            assert("genre"@.len() != "discnumber"@.len());
            reveal_strlit("date");
            assert("genre"@.len() != "date"@.len());
            reveal_strlit("conductor");
            assert("genre"@.len() != "conductor"@.len());
            reveal_strlit("composer");
            assert("genre"@.len() != "composer"@.len());
            reveal_strlit("bpm");
            assert("genre"@.len() != "bpm"@.len());
            reveal_strlit("artist");
            assert("genre"@.len() != "artist"@.len());
            reveal_strlit("arranger");
            assert("genre"@.len() != "arranger"@.len());
            reveal_strlit("albumartist");
            assert("genre"@.len() != "albumartist"@.len());
            reveal_strlit("album");
            assert("genre"@[0] != "album"@[0]);
        },
        Tag::Label => {
            reveal_strlit("label");
            assert(tag_name(Tag::Label) == "label"@);
            reveal_strlit("genre");
            assert("label"@[0] != "genre"@[0]);
            reveal_strlit("ensemble");
            assert("label"@.len() != "ensemble"@.len());
            reveal_strlit("disctotal");
            assert("label"@.len() != "disctotal"@.len());
            reveal_strlit("discnumber");
            assert("label"@.len() != "discnumber"@.len());
            reveal_strlit("date");
            assert("label"@.len() != "date"@.len());
            reveal_strlit("conductor");
            assert("label"@.len() != "conductor"@.len());
            reveal_strlit("composer");
            assert("label"@.len() != "composer"@.len());
            reveal_strlit("bpm");
            assert("label"@.len() != "bpm"@.len());
            reveal_strlit("artist");
            assert("label"@.len() != "artist"@.len());
            reveal_strlit("arranger");
            assert("label"@.len() != "arranger"@.len());
            reveal_strlit("albumartist");
            assert("label"@.len() != "albumartist"@.len());
            reveal_strlit("album");
            assert("label"@[0] != "album"@[0]);
        },
        Tag::Language => {
            reveal_strlit("language");
            assert(tag_name(Tag::Language) == "language"@);
            reveal_strlit("label");
            assert("language"@.len() != "label"@.len());
            reveal_strlit("genre");
            assert("language"@.len() != "genre"@.len());
            reveal_strlit("ensemble");
            assert("language"@[0] != "ensemble"@[0]);
            reveal_strlit("disctotal");
            assert("language"@.len() != "disctotal"@.len());
            reveal_strlit("discnumber");
            assert("language"@.len() != "discnumber"@.len());
            reveal_strlit("date");
            assert("language"@.len() != "date"@.len());
            reveal_strlit("conductor");
            assert("language"@.len() != "conductor"@.len());
            reveal_strlit("composer");
            assert("language"@[0] != "composer"@[0]);
            reveal_strlit("bpm");
            assert("language"@.len() != "bpm"@.len());
            reveal_strlit("artist");
            assert("language"@.len() != "artist"@.len());
            reveal_strlit("arranger");
            assert("language"@[0] != "arranger"@[0]);
            reveal_strlit("albumartist");
            assert("language"@.len() != "albumartist"@.len());
            reveal_strlit("album");
            assert("language"@.len() != "album"@.len());
        },
        Tag::Lyricist => {
            reveal_strlit("lyricist");
            assert(tag_name(Tag::Lyricist) == "lyricist"@);
            reveal_strlit("language");
            assert("lyricist"@[1] != "language"@[1]);
            reveal_strlit("label");
            assert("lyricist"@.len() != "label"@.len());
            reveal_strlit("genre");
            assert("lyricist"@.len() != "genre"@.len());
            reveal_strlit("ensemble");
            assert("lyricist"@[0] != "ensemble"@[0]);
            reveal_strlit("disctotal");
            assert("lyricist"@.len() != "disctotal"@.len());
            reveal_strlit("discnumber");
            assert("lyricist"@.len() != "discnumber"@.len());
            reveal_strlit("date");
            assert("lyricist"@.len() != "date"@.len());
            reveal_strlit("conductor");
            assert("lyricist"@.len() != "conductor"@.len());
            reveal_strlit("composer");
            assert("lyricist"@[0] != "composer"@[0]);
            reveal_strlit("bpm");
            assert("lyricist"@.len() != "bpm"@.len());
            reveal_strlit("artist");
            assert("lyricist"@.len() != "artist"@.len());
            reveal_strlit("arranger");
            assert("lyricist"@[0] != "arranger"@[0]);
            reveal_strlit("albumartist");
            assert("lyricist"@.len() != "albumartist"@.len());
            reveal_strlit("album");
            assert("lyricist"@.len() != "album"@.len());
        },
        Tag::Mood => {
            reveal_strlit("mood");
            assert(tag_name(Tag::Mood) == "mood"@);
            reveal_strlit("lyricist");
            assert("mood"@.len() != "lyricist"@.len());
            reveal_strlit("language");
            assert("mood"@.len() != "language"@.len());
            reveal_strlit("label");
            assert("mood"@.len() != "label"@.len());
            reveal_strlit("genre");
            assert("mood"@.len() != "genre"@.len());
            reveal_strlit("ensemble");
            assert("mood"@.len() != "ensemble"@.len());
            reveal_strlit("disctotal");
            assert("mood"@.len() != "disctotal"@.len());
            reveal_strlit("discnumber");
            assert("mood"@.len() != "discnumber"@.len());
            reveal_strlit("date");
            assert("mood"@[0] != "date"@[0]);
            reveal_strlit("conductor");
            assert("mood"@.len() != "conductor"@.len());
            reveal_strlit("composer");
            assert("mood"@.len() != "composer"@.len());
            reveal_strlit("bpm");
            assert("mood"@.len() != "bpm"@.len());
            reveal_strlit("artist");
            assert("mood"@.len() != "artist"@.len());
            reveal_strlit("arranger");
            assert("mood"@.len() != "arranger"@.len());
            reveal_strlit("albumartist");
            assert("mood"@.len() != "albumartist"@.len());
            reveal_strlit("album");
            assert("mood"@.len() != "album"@.len());
        },
        Tag::MovementName => {
            reveal_strlit("movementname");
            assert(tag_name(Tag::MovementName) == "movementname"@);
            reveal_strlit("mood");
            assert("movementname"@.len() != "mood"@.len());
            reveal_strlit("lyricist");
            assert("movementname"@.len() != "lyricist"@.len());
            reveal_strlit("language");
            assert("movementname"@.len() != "language"@.len());
            reveal_strlit("label");
            assert("movementname"@.len() != "label"@.len());
            reveal_strlit("genre");
            assert("movementname"@.len() != "genre"@.len());
            reveal_strlit("ensemble");
            assert("movementname"@.len() != "ensemble"@.len());
            reveal_strlit("disctotal");
            assert("movementname"@.len() != "disctotal"@.len());
            reveal_strlit("discnumber");
            assert("movementname"@.len() != "discnumber"@.len());
            reveal_strlit("date");
            assert("movementname"@.len() != "date"@.len());
            reveal_strlit("conductor");
            assert("movementname"@.len() != "conductor"@.len());
            reveal_strlit("composer");
            assert("movementname"@.len() != "composer"@.len());
            reveal_strlit("bpm");
            assert("movementname"@.len() != "bpm"@.len());
            reveal_strlit("artist");
            assert("movementname"@.len() != "artist"@.len());
            reveal_strlit("arranger");
            assert("movementname"@.len() != "arranger"@.len());
            reveal_strlit("albumartist");
            assert("movementname"@.len() != "albumartist"@.len());
            reveal_strlit("album");
            assert("movementname"@.len() != "album"@.len());
        },
        Tag::MovementNumber => {
            reveal_strlit("movementnumber");
            assert(tag_name(Tag::MovementNumber) == "movementnumber"@);
            reveal_strlit("movementname");
            assert("movementnumber"@.len() != "movementname"@.len());
            reveal_strlit("mood");
            assert("movementnumber"@.len() != "mood"@.len());
            reveal_strlit("lyricist");
            assert("movementnumber"@.len() != "lyricist"@.len());
            reveal_strlit("language");
            assert("movementnumber"@.len() != "language"@.len());
            reveal_strlit("label");
            assert("movementnumber"@.len() != "label"@.len());
            reveal_strlit("genre");
            assert("movementnumber"@.len() != "genre"@.len());
            reveal_strlit("ensemble");
            assert("movementnumber"@.len() != "ensemble"@.len());
            reveal_strlit("disctotal");
            assert("movementnumber"@.len() != "disctotal"@.len());
            reveal_strlit("discnumber");
            assert("movementnumber"@.len() != "discnumber"@.len());
            reveal_strlit("date");
            assert("movementnumber"@.len() != "date"@.len());
            reveal_strlit("conductor");
            assert("movementnumber"@.len() != "conductor"@.len());
            reveal_strlit("composer");
            assert("movementnumber"@.len() != "composer"@.len());
            reveal_strlit("bpm");
            assert("movementnumber"@.len() != "bpm"@.len());
            reveal_strlit("artist");
            assert("movementnumber"@.len() != "artist"@.len());
            reveal_strlit("arranger");
            assert("movementnumber"@.len() != "arranger"@.len());
            reveal_strlit("albumartist");
            assert("movementnumber"@.len() != "albumartist"@.len());
            reveal_strlit("album");
            assert("movementnumber"@.len() != "album"@.len());
        },
        Tag::Part => {
            reveal_strlit("part");
            assert(tag_name(Tag::Part) == "part"@);
            reveal_strlit("movementnumber");
            assert("part"@.len() != "movementnumber"@.len());
            reveal_strlit("movementname");
            assert("part"@.len() != "movementname"@.len());
            reveal_strlit("mood");
            assert("part"@[0] != "mood"@[0]);
            reveal_strlit("lyricist");
            assert("part"@.len() != "lyricist"@.len());
            reveal_strlit("language");
            assert("part"@.len() != "language"@.len());
            reveal_strlit("label");
            assert("part"@.len() != "label"@.len());
            reveal_strlit("genre");
            assert("part"@.len() != "genre"@.len());
            reveal_strlit("ensemble");
            assert("part"@.len() != "ensemble"@.len());
            reveal_strlit("disctotal");
            assert("part"@.len() != "disctotal"@.len());
            reveal_strlit("discnumber");
            assert("part"@.len() != "discnumber"@.len());
            reveal_strlit("date");
            assert("part"@[0] != "date"@[0]);
            reveal_strlit("conductor");
            assert("part"@.len() != "conductor"@.len());
            reveal_strlit("composer");
            assert("part"@.len() != "composer"@.len());
            reveal_strlit("bpm");
            assert("part"@.len() != "bpm"@.len());
            reveal_strlit("artist");
            assert("part"@.len() != "artist"@.len());
            reveal_strlit("arranger");
            assert("part"@.len() != "arranger"@.len());
            reveal_strlit("albumartist");
            assert("part"@.len() != "albumartist"@.len());
            reveal_strlit("album");
            assert("part"@.len() != "album"@.len());
        },
        Tag::PartTotal => {
            reveal_strlit("parttotal");
            assert(tag_name(Tag::PartTotal) == "parttotal"@);
            reveal_strlit("part");
            assert("parttotal"@.len() != "part"@.len());
            reveal_strlit("movementnumber");
            assert("parttotal"@.len() != "movementnumber"@.len());
            reveal_strlit("movementname");
            assert("parttotal"@.len() != "movementname"@.len());
            reveal_strlit("mood");
            assert("parttotal"@.len() != "mood"@.len());
            reveal_strlit("lyricist");
            assert("parttotal"@.len() != "lyricist"@.len());
            reveal_strlit("language");
            assert("parttotal"@.len() != "language"@.len());
            reveal_strlit("label");
            assert("parttotal"@.len() != "label"@.len());
            reveal_strlit("genre");
            assert("parttotal"@.len() != "genre"@.len());
            reveal_strlit("ensemble");
            assert("parttotal"@.len() != "ensemble"@.len());
            reveal_strlit("disctotal");
            assert("parttotal"@[0] != "disctotal"@[0]);
            reveal_strlit("discnumber");
            assert("parttotal"@.len() != "discnumber"@.len());
            reveal_strlit("date");
            assert("parttotal"@.len() != "date"@.len());
            reveal_strlit("conductor");
            assert("parttotal"@[0] != "conductor"@[0]);
            reveal_strlit("composer");
            assert("parttotal"@.len() != "composer"@.len());
            reveal_strlit("bpm");
            assert("parttotal"@.len() != "bpm"@.len());
            reveal_strlit("artist");
            assert("parttotal"@.len() != "artist"@.len());
            reveal_strlit("arranger");
            assert("parttotal"@.len() != "arranger"@.len());
            reveal_strlit("albumartist");
            assert("parttotal"@.len() != "albumartist"@.len());
            reveal_strlit("album");
            assert("parttotal"@.len() != "album"@.len());
        },
        Tag::Performer => {
            reveal_strlit("performer");
            assert(tag_name(Tag::Performer) == "performer"@);
            reveal_strlit("parttotal");
            assert("performer"@[1] != "parttotal"@[1]);
            reveal_strlit("part");
            assert("performer"@.len() != "part"@.len());
            reveal_strlit("movementnumber");
            assert("performer"@.len() != "movementnumber"@.len());
            reveal_strlit("movementname");
            assert("performer"@.len() != "movementname"@.len());
            reveal_strlit("mood");
            assert("performer"@.len() != "mood"@.len());
            reveal_strlit("lyricist");
            assert("performer"@.len() != "lyricist"@.len());
            reveal_strlit("language");
            assert("performer"@.len() != "language"@.len());
            reveal_strlit("label");
            assert("performer"@.len() != "label"@.len());
            reveal_strlit("genre");
            assert("performer"@.len() != "genre"@.len());
            reveal_strlit("ensemble");
            assert("performer"@.len() != "ensemble"@.len());
            reveal_strlit("disctotal");
            assert("performer"@[0] != "disctotal"@[0]);
            reveal_strlit("discnumber");
            assert("performer"@.len() != "discnumber"@.len());
            reveal_strlit("date");
            assert("performer"@.len() != "date"@.len());
            reveal_strlit("conductor");
            assert("performer"@[0] != "conductor"@[0]);
            reveal_strlit("composer");
            assert("performer"@.len() != "composer"@.len());
            reveal_strlit("bpm");
            assert("performer"@.len() != "bpm"@.len());
            reveal_strlit("artist");
            assert("performer"@.len() != "artist"@.len());
            reveal_strlit("arranger");
            assert("performer"@.len() != "arranger"@.len());
            reveal_strlit("albumartist");
            assert("performer"@.len() != "albumartist"@.len());
            reveal_strlit("album");
            assert("performer"@.len() != "album"@.len());
        },
        Tag::Producer => {
            reveal_strlit("producer");
            assert(tag_name(Tag::Producer) == "producer"@);
            reveal_strlit("performer");
            assert("producer"@.len() != "performer"@.len());
            reveal_strlit("parttotal");
            assert("producer"@.len() != "parttotal"@.len());
            reveal_strlit("part");
            assert("producer"@.len() != "part"@.len());
            reveal_strlit("movementnumber");
            assert("producer"@.len() != "movementnumber"@.len());
            reveal_strlit("movementname");
            assert("producer"@.len() != "movementname"@.len());
            reveal_strlit("mood");
            assert("producer"@.len() != "mood"@.len());
            reveal_strlit("lyricist");
            assert("producer"@[0] != "lyricist"@[0]);
            reveal_strlit("language");
            assert("producer"@[0] != "language"@[0]);
            reveal_strlit("label");
            assert("producer"@.len() != "label"@.len());
            reveal_strlit("genre");
            assert("producer"@.len() != "genre"@.len());
            reveal_strlit("ensemble");
            assert("producer"@[0] != "ensemble"@[0]);
            reveal_strlit("disctotal");
            assert("producer"@.len() != "disctotal"@.len());
            reveal_strlit("discnumber");
            assert("producer"@.len() != "discnumber"@.len());
            reveal_strlit("date");
            assert("producer"@.len() != "date"@.len());
            reveal_strlit("conductor");
            assert("producer"@.len() != "conductor"@.len());
            reveal_strlit("composer");
            assert("producer"@[0] != "composer"@[0]);
            reveal_strlit("bpm");
            assert("producer"@.len() != "bpm"@.len());
            reveal_strlit("artist");
            assert("producer"@.len() != "artist"@.len());
            reveal_strlit("arranger");
            assert("producer"@[0] != "arranger"@[0]);
            reveal_strlit("albumartist");
            assert("producer"@.len() != "albumartist"@.len());
            reveal_strlit("album");
            assert("producer"@.len() != "album"@.len());
        },
        Tag::Script => {
            reveal_strlit("script");
            assert(tag_name(Tag::Script) == "script"@);
            reveal_strlit("producer");
            assert("script"@.len() != "producer"@.len());
            reveal_strlit("performer");
            assert("script"@.len() != "performer"@.len());
            reveal_strlit("parttotal");
            assert("script"@.len() != "parttotal"@.len());
            reveal_strlit("part");
            assert("script"@.len() != "part"@.len());
            reveal_strlit("movementnumber");
            assert("script"@.len() != "movementnumber"@.len());
            reveal_strlit("movementname");
            assert("script"@.len() != "movementname"@.len());
            reveal_strlit("mood");
            assert("script"@.len() != "mood"@.len());
            reveal_strlit("lyricist");
            assert("script"@.len() != "lyricist"@.len());
            reveal_strlit("language");
            assert("script"@.len() != "language"@.len());
            reveal_strlit("label");
            assert("script"@.len() != "label"@.len());
            reveal_strlit("genre");
            assert("script"@.len() != "genre"@.len());
            reveal_strlit("ensemble");
            assert("script"@.len() != "ensemble"@.len());
            reveal_strlit("disctotal");
            assert("script"@.len() != "disctotal"@.len());
            reveal_strlit("discnumber");
            assert("script"@.len() != "discnumber"@.len());
            reveal_strlit("date");
            assert("script"@.len() != "date"@.len());
            reveal_strlit("conductor");
            assert("script"@.len() != "conductor"@.len());
            reveal_strlit("composer");
            assert("script"@.len() != "composer"@.len());
            reveal_strlit("bpm");
            assert("script"@.len() != "bpm"@.len());
            reveal_strlit("artist");
            assert("script"@[0] != "artist"@[0]);
            reveal_strlit("arranger");
            assert("script"@.len() != "arranger"@.len());
            reveal_strlit("albumartist");
            assert("script"@.len() != "albumartist"@.len());
            reveal_strlit("album");
            assert("script"@.len() != "album"@.len());
        },
        Tag::SortAlbum => {
            reveal_strlit("sortalbum");
            assert(tag_name(Tag::SortAlbum) == "sortalbum"@);
            reveal_strlit("script");
            assert("sortalbum"@.len() != "script"@.len());
            reveal_strlit("producer");
            assert("sortalbum"@.len() != "producer"@.len());
            reveal_strlit("performer");
            assert("sortalbum"@[0] != "performer"@[0]);
            reveal_strlit("parttotal");
            assert("sortalbum"@[0] != "parttotal"@[0]);
            reveal_strlit("part");
            assert("sortalbum"@.len() != "part"@.len());
            reveal_strlit("movementnumber");
            assert("sortalbum"@.len() != "movementnumber"@.len());
            reveal_strlit("movementname");
            assert("sortalbum"@.len() != "movementname"@.len());
            reveal_strlit("mood");
            assert("sortalbum"@.len() != "mood"@.len());
            reveal_strlit("lyricist");
            assert("sortalbum"@.len() != "lyricist"@.len());
            reveal_strlit("language");
            assert("sortalbum"@.len() != "language"@.len());
            reveal_strlit("label");
            assert("sortalbum"@.len() != "label"@.len());
            reveal_strlit("genre");
            assert("sortalbum"@.len() != "genre"@.len());
            reveal_strlit("ensemble");
            assert("sortalbum"@.len() != "ensemble"@.len());
            reveal_strlit("disctotal");
            assert("sortalbum"@[0] != "disctotal"@[0]);
            reveal_strlit("discnumber");
            assert("sortalbum"@.len() != "discnumber"@.len());
            reveal_strlit("date");
            assert("sortalbum"@.len() != "date"@.len());
            reveal_strlit("conductor");
            assert("sortalbum"@[0] != "conductor"@[0]);
            reveal_strlit("composer");
            assert("sortalbum"@.len() != "composer"@.len());
            reveal_strlit("bpm");
            assert("sortalbum"@.len() != "bpm"@.len());
            reveal_strlit("artist");
            assert("sortalbum"@.len() != "artist"@.len());
            reveal_strlit("arranger");
            assert("sortalbum"@.len() != "arranger"@.len());
            reveal_strlit("albumartist");
            assert("sortalbum"@.len() != "albumartist"@.len());
            reveal_strlit("album");
            assert("sortalbum"@.len() != "album"@.len());
        },
        Tag::SortAlbumArtist => {
            reveal_strlit("sortalbumartist");
            assert(tag_name(Tag::SortAlbumArtist) == "sortalbumartist"@);
            reveal_strlit("sortalbum");
            assert("sortalbumartist"@.len() != "sortalbum"@.len());
            reveal_strlit("script");
            assert("sortalbumartist"@.len() != "script"@.len());
            reveal_strlit("producer");
            assert("sortalbumartist"@.len() != "producer"@.len());
            reveal_strlit("performer");
            assert("sortalbumartist"@.len() != "performer"@.len());
            reveal_strlit("parttotal");
            assert("sortalbumartist"@.len() != "parttotal"@.len());
            reveal_strlit("part");
            assert("sortalbumartist"@.len() != "part"@.len());
            reveal_strlit("movementnumber");
            assert("sortalbumartist"@.len() != "movementnumber"@.len());
            reveal_strlit("movementname");
            assert("sortalbumartist"@.len() != "movementname"@.len());
            reveal_strlit("mood");
            assert("sortalbumartist"@.len() != "mood"@.len());
            reveal_strlit("lyricist");
            assert("sortalbumartist"@.len() != "lyricist"@.len());
            reveal_strlit("language");
            assert("sortalbumartist"@.len() != "language"@.len());
            reveal_strlit("label");
            assert("sortalbumartist"@.len() != "label"@.len());
            reveal_strlit("genre");
            assert("sortalbumartist"@.len() != "genre"@.len());
            reveal_strlit("ensemble");
            assert("sortalbumartist"@.len() != "ensemble"@.len());
            reveal_strlit("disctotal");
            assert("sortalbumartist"@.len() != "disctotal"@.len());
            reveal_strlit("discnumber");
            assert("sortalbumartist"@.len() != "discnumber"@.len());
            reveal_strlit("date");
            assert("sortalbumartist"@.len() != "date"@.len());
            reveal_strlit("conductor");
            assert("sortalbumartist"@.len() != "conductor"@.len());
            reveal_strlit("composer");
            assert("sortalbumartist"@.len() != "composer"@.len());
            reveal_strlit("bpm");
            assert("sortalbumartist"@.len() != "bpm"@.len());
            reveal_strlit("artist");
            assert("sortalbumartist"@.len() != "artist"@.len());
            reveal_strlit("arranger");
            assert("sortalbumartist"@.len() != "arranger"@.len());
            reveal_strlit("albumartist");
            assert("sortalbumartist"@.len() != "albumartist"@.len());
            reveal_strlit("album");
            assert("sortalbumartist"@.len() != "album"@.len());
        },
        Tag::SortArtist => {
            reveal_strlit("sortartist");
            assert(tag_name(Tag::SortArtist) == "sortartist"@);
            reveal_strlit("sortalbumartist");
            assert("sortartist"@.len() != "sortalbumartist"@.len());
            reveal_strlit("sortalbum");
            assert("sortartist"@.len() != "sortalbum"@.len());
            reveal_strlit("script");
            assert("sortartist"@.len() != "script"@.len());
            reveal_strlit("producer");
            assert("sortartist"@.len() != "producer"@.len());
            reveal_strlit("performer");
            assert("sortartist"@.len() != "performer"@.len());
            reveal_strlit("parttotal");
            assert("sortartist"@.len() != "parttotal"@.len());
            reveal_strlit("part");
            assert("sortartist"@.len() != "part"@.len());
            reveal_strlit("movementnumber");
            assert("sortartist"@.len() != "movementnumber"@.len());
            reveal_strlit("movementname");
            assert("sortartist"@.len() != "movementname"@.len());
            reveal_strlit("mood");
            assert("sortartist"@.len() != "mood"@.len());
            reveal_strlit("lyricist");
            assert("sortartist"@.len() != "lyricist"@.len());
            reveal_strlit("language");
            assert("sortartist"@.len() != "language"@.len());
            reveal_strlit("label");
            assert("sortartist"@.len() != "label"@.len());
            reveal_strlit("genre");
            assert("sortartist"@.len() != "genre"@.len());
            reveal_strlit("ensemble");
            assert("sortartist"@.len() != "ensemble"@.len());
            reveal_strlit("disctotal");
            assert("sortartist"@.len() != "disctotal"@.len());
            reveal_strlit("discnumber");
            assert("sortartist"@[0] != "discnumber"@[0]);
            reveal_strlit("date");
            assert("sortartist"@.len() != "date"@.len());
            reveal_strlit("conductor");
            assert("sortartist"@.len() != "conductor"@.len());
            reveal_strlit("composer");
            assert("sortartist"@.len() != "composer"@.len());
            reveal_strlit("bpm");
            assert("sortartist"@.len() != "bpm"@.len());
            reveal_strlit("artist");
            assert("sortartist"@.len() != "artist"@.len());
            reveal_strlit("arranger");
            assert("sortartist"@.len() != "arranger"@.len());
            reveal_strlit("albumartist");
            assert("sortartist"@.len() != "albumartist"@.len());
            reveal_strlit("album");
            assert("sortartist"@.len() != "album"@.len());
        },
        Tag::SortComposer => {
            reveal_strlit("sortcomposer");
            assert(tag_name(Tag::SortComposer) == "sortcomposer"@);
            reveal_strlit("sortartist");
            assert("sortcomposer"@.len() != "sortartist"@.len());
            reveal_strlit("sortalbumartist");
            assert("sortcomposer"@.len() != "sortalbumartist"@.len());
            reveal_strlit("sortalbum");
            assert("sortcomposer"@.len() != "sortalbum"@.len());
            reveal_strlit("script");
            assert("sortcomposer"@.len() != "script"@.len());
            reveal_strlit("producer");
            assert("sortcomposer"@.len() != "producer"@.len());
            reveal_strlit("performer");
            assert("sortcomposer"@.len() != "performer"@.len());
            reveal_strlit("parttotal");
            assert("sortcomposer"@.len() != "parttotal"@.len());
            reveal_strlit("part");
            assert("sortcomposer"@.len() != "part"@.len());
            reveal_strlit("movementnumber");
            assert("sortcomposer"@.len() != "movementnumber"@.len());
            reveal_strlit("movementname");
            assert("sortcomposer"@[0] != "movementname"@[0]);
            reveal_strlit("mood");
            assert("sortcomposer"@.len() != "mood"@.len());
            reveal_strlit("lyricist");
            assert("sortcomposer"@.len() != "lyricist"@.len());
            reveal_strlit("language");
            assert("sortcomposer"@.len() != "language"@.len());
            reveal_strlit("label");
            assert("sortcomposer"@.len() != "label"@.len());
            reveal_strlit("genre");
            assert("sortcomposer"@.len() != "genre"@.len());
            reveal_strlit("ensemble");
            assert("sortcomposer"@.len() != "ensemble"@.len());
            reveal_strlit("disctotal");
            assert("sortcomposer"@.len() != "disctotal"@.len());
            reveal_strlit("discnumber");
            assert("sortcomposer"@.len() != "discnumber"@.len());
            reveal_strlit("date");
            assert("sortcomposer"@.len() != "date"@.len());
            reveal_strlit("conductor");
            assert("sortcomposer"@.len() != "conductor"@.len());
            reveal_strlit("composer");
            assert("sortcomposer"@.len() != "composer"@.len());
            reveal_strlit("bpm");
            assert("sortcomposer"@.len() != "bpm"@.len());
            reveal_strlit("artist");
            assert("sortcomposer"@.len() != "artist"@.len());
            reveal_strlit("arranger");
            assert("sortcomposer"@.len() != "arranger"@.len());
            reveal_strlit("albumartist");
            assert("sortcomposer"@.len() != "albumartist"@.len());
            reveal_strlit("album");
            assert("sortcomposer"@.len() != "album"@.len());
        },
        Tag::SortTrackTitle => {
            reveal_strlit("sorttracktitle");
            assert(tag_name(Tag::SortTrackTitle) == "sorttracktitle"@);
            reveal_strlit("sortcomposer");
            assert("sorttracktitle"@.len() != "sortcomposer"@.len());
            reveal_strlit("sortartist");
            assert("sorttracktitle"@.len() != "sortartist"@.len());
            reveal_strlit("sortalbumartist");
            assert("sorttracktitle"@.len() != "sortalbumartist"@.len());
            reveal_strlit("sortalbum");
            assert("sorttracktitle"@.len() != "sortalbum"@.len());
            reveal_strlit("script");
            assert("sorttracktitle"@.len() != "script"@.len());
            reveal_strlit("producer");
            assert("sorttracktitle"@.len() != "producer"@.len());
            reveal_strlit("performer");
            assert("sorttracktitle"@.len() != "performer"@.len());
            reveal_strlit("parttotal");
            assert("sorttracktitle"@.len() != "parttotal"@.len());
            reveal_strlit("part");
            assert("sorttracktitle"@.len() != "part"@.len());
            reveal_strlit("movementnumber");
            assert("sorttracktitle"@[0] != "movementnumber"@[0]);
            reveal_strlit("movementname");
            assert("sorttracktitle"@.len() != "movementname"@.len());
            reveal_strlit("mood");
            assert("sorttracktitle"@.len() != "mood"@.len());
            reveal_strlit("lyricist");
            assert("sorttracktitle"@.len() != "lyricist"@.len());
            reveal_strlit("language");
            assert("sorttracktitle"@.len() != "language"@.len());
            reveal_strlit("label");
            assert("sorttracktitle"@.len() != "label"@.len());
            reveal_strlit("genre");
            assert("sorttracktitle"@.len() != "genre"@.len());
            reveal_strlit("ensemble");
            assert("sorttracktitle"@.len() != "ensemble"@.len());
            reveal_strlit("disctotal");
            assert("sorttracktitle"@.len() != "disctotal"@.len());
            reveal_strlit("discnumber");
            assert("sorttracktitle"@.len() != "discnumber"@.len());
            reveal_strlit("date");
            assert("sorttracktitle"@.len() != "date"@.len());
            reveal_strlit("conductor");
            assert("sorttracktitle"@.len() != "conductor"@.len());
            reveal_strlit("composer");
            assert("sorttracktitle"@.len() != "composer"@.len());
            reveal_strlit("bpm");
            assert("sorttracktitle"@.len() != "bpm"@.len());
            reveal_strlit("artist");
            assert("sorttracktitle"@.len() != "artist"@.len());
            reveal_strlit("arranger");
            assert("sorttracktitle"@.len() != "arranger"@.len());
            reveal_strlit("albumartist");
            assert("sorttracktitle"@.len() != "albumartist"@.len());
            reveal_strlit("album");
            assert("sorttracktitle"@.len() != "album"@.len());
        },
        Tag::TrackNumber => {
            reveal_strlit("tracknumber");
            assert(tag_name(Tag::TrackNumber) == "tracknumber"@);
            reveal_strlit("sorttracktitle");
            assert("tracknumber"@.len() != "sorttracktitle"@.len());
            reveal_strlit("sortcomposer");
            assert("tracknumber"@.len() != "sortcomposer"@.len());
            reveal_strlit("sortartist");
            assert("tracknumber"@.len() != "sortartist"@.len());
            reveal_strlit("sortalbumartist");
            assert("tracknumber"@.len() != "sortalbumartist"@.len());
            reveal_strlit("sortalbum");
            assert("tracknumber"@.len() != "sortalbum"@.len());
            reveal_strlit("script");
            assert("tracknumber"@.len() != "script"@.len());
            reveal_strlit("producer");
            assert("tracknumber"@.len() != "producer"@.len());
            reveal_strlit("performer");
            assert("tracknumber"@.len() != "performer"@.len());
            reveal_strlit("parttotal");
            assert("tracknumber"@.len() != "parttotal"@.len());
            reveal_strlit("part");
            assert("tracknumber"@.len() != "part"@.len());
            reveal_strlit("movementnumber");
            assert("tracknumber"@.len() != "movementnumber"@.len());
            reveal_strlit("movementname");
            assert("tracknumber"@.len() != "movementname"@.len());
            reveal_strlit("mood");
            assert("tracknumber"@.len() != "mood"@.len());
            reveal_strlit("lyricist");
            assert("tracknumber"@.len() != "lyricist"@.len());
            reveal_strlit("language");
            assert("tracknumber"@.len() != "language"@.len());
            reveal_strlit("label");
            assert("tracknumber"@.len() != "label"@.len());
            reveal_strlit("genre");
            assert("tracknumber"@.len() != "genre"@.len());
            reveal_strlit("ensemble");
            assert("tracknumber"@.len() != "ensemble"@.len());
            reveal_strlit("disctotal");
            assert("tracknumber"@.len() != "disctotal"@.len());
            reveal_strlit("discnumber");
            assert("tracknumber"@.len() != "discnumber"@.len());
            reveal_strlit("date");
            assert("tracknumber"@.len() != "date"@.len());
            reveal_strlit("conductor");
            assert("tracknumber"@.len() != "conductor"@.len());
            reveal_strlit("composer");
            assert("tracknumber"@.len() != "composer"@.len());
            reveal_strlit("bpm");
            assert("tracknumber"@.len() != "bpm"@.len());
            reveal_strlit("artist");
            assert("tracknumber"@.len() != "artist"@.len());
            reveal_strlit("arranger");
            assert("tracknumber"@.len() != "arranger"@.len());
            reveal_strlit("albumartist");
            assert("tracknumber"@[0] != "albumartist"@[0]);
            reveal_strlit("album");
            assert("tracknumber"@.len() != "album"@.len());
        },
        Tag::TrackTitle => {
            reveal_strlit("tracktitle");
            assert(tag_name(Tag::TrackTitle) == "tracktitle"@);
            reveal_strlit("tracknumber");
            assert("tracktitle"@.len() != "tracknumber"@.len());
            reveal_strlit("sorttracktitle");
            assert("tracktitle"@.len() != "sorttracktitle"@.len());
            reveal_strlit("sortcomposer");
            assert("tracktitle"@.len() != "sortcomposer"@.len());
            reveal_strlit("sortartist");
            assert("tracktitle"@[0] != "sortartist"@[0]);
            reveal_strlit("sortalbumartist");
            assert("tracktitle"@.len() != "sortalbumartist"@.len());
            reveal_strlit("sortalbum");
            assert("tracktitle"@.len() != "sortalbum"@.len());
            reveal_strlit("script");
            assert("tracktitle"@.len() != "script"@.len());
            reveal_strlit("producer");
            assert("tracktitle"@.len() != "producer"@.len());
            reveal_strlit("performer");
            assert("tracktitle"@.len() != "performer"@.len());
            reveal_strlit("parttotal");
            assert("tracktitle"@.len() != "parttotal"@.len());
            reveal_strlit("part");
            assert("tracktitle"@.len() != "part"@.len());
            reveal_strlit("movementnumber");
            assert("tracktitle"@.len() != "movementnumber"@.len());
            reveal_strlit("movementname");
            assert("tracktitle"@.len() != "movementname"@.len());
            reveal_strlit("mood");
            assert("tracktitle"@.len() != "mood"@.len());
            reveal_strlit("lyricist");
            assert("tracktitle"@.len() != "lyricist"@.len());
            reveal_strlit("language");
            assert("tracktitle"@.len() != "language"@.len());
            reveal_strlit("label");
            assert("tracktitle"@.len() != "label"@.len());
            reveal_strlit("genre");
            assert("tracktitle"@.len() != "genre"@.len());
            reveal_strlit("ensemble");
            assert("tracktitle"@.len() != "ensemble"@.len());
            reveal_strlit("disctotal");
            assert("tracktitle"@.len() != "disctotal"@.len());
            reveal_strlit("discnumber");
            assert("tracktitle"@[0] != "discnumber"@[0]);
            reveal_strlit("date");
            assert("tracktitle"@.len() != "date"@.len());
            reveal_strlit("conductor");
            assert("tracktitle"@.len() != "conductor"@.len());
            reveal_strlit("composer");
            assert("tracktitle"@.len() != "composer"@.len());
            reveal_strlit("bpm");
            assert("tracktitle"@.len() != "bpm"@.len());
            reveal_strlit("artist");
            assert("tracktitle"@.len() != "artist"@.len());
            reveal_strlit("arranger");
            assert("tracktitle"@.len() != "arranger"@.len());
            reveal_strlit("albumartist");
            assert("tracktitle"@.len() != "albumartist"@.len());
            reveal_strlit("album");
            assert("tracktitle"@.len() != "album"@.len());
        },
    }
}

/// The key of `t`, with the way its values compare.
pub open spec fn key_of(t: Tag) -> TagKey {
    TagKey { key: t, kind: kind_of(t) }
}

/// The key of every supported tag, in the order of the list of supported tags.
pub open spec fn all_tag_keys() -> Seq<TagKey> {
    seq![
        key_of(Tag::Album),
        key_of(Tag::AlbumArtist),
        key_of(Tag::Arranger),
        key_of(Tag::Artist),
        key_of(Tag::Bpm),
        key_of(Tag::Composer),
        key_of(Tag::Conductor),
        key_of(Tag::Date),
        key_of(Tag::DiscNumber),
        key_of(Tag::DiscTotal),
        key_of(Tag::Ensemble),
        key_of(Tag::Genre),
        key_of(Tag::Label),
        key_of(Tag::Language),
        key_of(Tag::Lyricist),
        key_of(Tag::Mood),
        key_of(Tag::MovementName),
        key_of(Tag::MovementNumber),
        key_of(Tag::Part),
        key_of(Tag::PartTotal),
        key_of(Tag::Performer),
        key_of(Tag::Producer),
        key_of(Tag::Script),
        key_of(Tag::SortAlbum),
        key_of(Tag::SortAlbumArtist),
        key_of(Tag::SortArtist),
        key_of(Tag::SortComposer),
        key_of(Tag::SortTrackTitle),
        key_of(Tag::TrackNumber),
        key_of(Tag::TrackTitle),
    ]
}

impl TagKey {
    /// The key of `t`, with the way its values compare.
    pub fn of_tag(t: Tag) -> (r: TagKey)
        ensures
            r == key_of(t),
    {
        let kind = match t {
            Tag::Bpm => TagKeyKind::Integer,
            Tag::DiscNumber | Tag::MovementNumber | Tag::TrackNumber => TagKeyKind::OutOf,
            _ => TagKeyKind::String,
        };
        TagKey { key: t, kind }
    }

    /// The key of every supported tag, in the order of the list of supported tags.
    pub fn all() -> (r: Vec<TagKey>)
        ensures
            r@ == all_tag_keys(),
    {
        let mut v: Vec<TagKey> = Vec::new();
    v.push(TagKey::of_tag(Tag::Album));
    v.push(TagKey::of_tag(Tag::AlbumArtist));
    v.push(TagKey::of_tag(Tag::Arranger));
    v.push(TagKey::of_tag(Tag::Artist));
    v.push(TagKey::of_tag(Tag::Bpm));
    v.push(TagKey::of_tag(Tag::Composer));
    v.push(TagKey::of_tag(Tag::Conductor));
    v.push(TagKey::of_tag(Tag::Date));
    v.push(TagKey::of_tag(Tag::DiscNumber));
    v.push(TagKey::of_tag(Tag::DiscTotal));
    v.push(TagKey::of_tag(Tag::Ensemble));
    v.push(TagKey::of_tag(Tag::Genre));
    v.push(TagKey::of_tag(Tag::Label));
    v.push(TagKey::of_tag(Tag::Language));
    v.push(TagKey::of_tag(Tag::Lyricist));
    v.push(TagKey::of_tag(Tag::Mood));
    v.push(TagKey::of_tag(Tag::MovementName));
    v.push(TagKey::of_tag(Tag::MovementNumber));
    v.push(TagKey::of_tag(Tag::Part));
    v.push(TagKey::of_tag(Tag::PartTotal));
    v.push(TagKey::of_tag(Tag::Performer));
    v.push(TagKey::of_tag(Tag::Producer));
    v.push(TagKey::of_tag(Tag::Script));
    v.push(TagKey::of_tag(Tag::SortAlbum));
    v.push(TagKey::of_tag(Tag::SortAlbumArtist));
    v.push(TagKey::of_tag(Tag::SortArtist));
    v.push(TagKey::of_tag(Tag::SortComposer));
    v.push(TagKey::of_tag(Tag::SortTrackTitle));
    v.push(TagKey::of_tag(Tag::TrackNumber));
    v.push(TagKey::of_tag(Tag::TrackTitle));
        v
    }
}

} // verus!
