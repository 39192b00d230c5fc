use vstd::prelude::*;
use vstd::string::StringExecFns;

use crate::model::comparator::{comparator_of_json, Comparator};
use crate::model::filter::{filter_of_json, FilterExpr, RegexFilter};
use crate::model::json::{
    fields_view, get, ids_field, json_of_text, parse_json, ids_field_of, int_field, int_field_of, items_view, lemma_object_view,
    list_field, list_field_of, lookup, missing_key, opt_index_field, opt_index_field_of, opt_range_field,
    opt_range_field_of, str_of, string_field, string_field_of, string_views, strings_field,
    strings_field_of, wrong_type, wrong_type_error, Json, JsonError, JsonView,
};
use crate::model::tag_key::{all_tag_keys, tag_key_of_name, TagKey};
use crate::text::str_eq;

verus! {

/// The tags named `names`, or the text of the error for the first unknown one.
pub open spec fn tags_of(names: Seq<Seq<char>>) -> Result<Seq<TagKey>, Seq<char>>
    decreases names.len(),
{
    if names.len() == 0 {
        Ok(Seq::empty())
    } else {
        match tags_of(names.drop_last()) {
            Err(m) => Err(m),
            Ok(l) => match tag_key_of_name(names.last()) {
                Some(k) => Ok(l.push(k)),
                None => Err("invalid tag `"@ + names.last() + "`"@),
            },
        }
    }
}

/// The filters that `items` describe, or the error of the first one that fails.
pub open spec fn filters_of(items: Seq<JsonView>) -> Result<Seq<(TagKey, Seq<char>)>, Option<Seq<char>>>
    decreases items.len(),
{
    if items.len() == 0 {
        Ok(Seq::empty())
    } else {
        match filters_of(items.drop_last()) {
            Err(m) => Err(m),
            Ok(l) => match filter_of_json(items.last()) {
                Ok(f) => Ok(l.push(f)),
                Err(m) => Err(m),
            },
        }
    }
}

/// The comparators that `items` describe, or the error of the first one that fails.
pub open spec fn comparators_of(items: Seq<JsonView>) -> Result<Seq<Comparator>, Seq<char>>
    decreases items.len(),
{
    if items.len() == 0 {
        Ok(Seq::empty())
    } else {
        match comparators_of(items.drop_last()) {
            Err(m) => Err(m),
            Ok(l) => match comparator_of_json(items.last()) {
                Ok(c) => Ok(l.push(c)),
                Err(m) => Err(m),
            },
        }
    }
}

/// A list-of-tags field.
pub open spec fn tags_field(fields: Seq<(Seq<char>, JsonView)>, key: Seq<char>, required: bool) -> Result<
    Seq<TagKey>,
    Seq<char>,
> {
    match strings_field(fields, key, required) {
        Ok(names) => tags_of(names),
        Err(m) => Err(m),
    }
}

/// A list-of-filters field (a missing key reads as `null`, which is no list).
pub open spec fn filters_field(fields: Seq<(Seq<char>, JsonView)>, key: Seq<char>) -> Result<
    Seq<(TagKey, Seq<char>)>,
    Option<Seq<char>>,
> {
    match list_field(fields, key, false) {
        Ok(items) => filters_of(items),
        Err(m) => Err(Some(m)),
    }
}

/// A list-of-comparators field (a missing key reads as `null`, which is no list).
pub open spec fn comparators_field(fields: Seq<(Seq<char>, JsonView)>, key: Seq<char>) -> Result<
    Seq<Comparator>,
    Seq<char>,
> {
    match list_field(fields, key, false) {
        Ok(items) => comparators_of(items),
        Err(m) => Err(m),
    }
}

/// The plain values of a list of filters: tag and pattern.
pub open spec fn filter_views(v: Seq<RegexFilter>) -> Seq<(TagKey, Seq<char>)> {
    v.map_values(|f: RegexFilter| (f.tag, f.regex@))
}

/// The tags of `names`.
pub fn tags_from_names(names: &Vec<String>) -> (r: Result<Vec<TagKey>, JsonError>)
    ensures
        match tags_of(string_views(names@)) {
            Ok(l) => r matches Ok(v) && v@ == l,
            Err(m) => r matches Err(e) && e.0@ == m,
        },
{
    let ghost nv = string_views(names@);
    let mut out: Vec<TagKey> = Vec::new();
    let n = names.len();
    for i in 0..n
        invariant
            n == names@.len(),
            nv == string_views(names@),
            tags_of(nv.take(i as int)) == Ok::<Seq<TagKey>, Seq<char>>(out@),
    {
        assert(nv.take(i + 1).drop_last() =~= nv.take(i as int));
        assert(nv.take(i + 1).last() == names@[i as int]@);
        match TagKey::try_from_name(names[i].as_str()) {
            Ok(k) => out.push(k),
            Err(e) => {
                proof {
                    lemma_tags_prefix(nv, i as int + 1);
                }
                return Err(JsonError(e.to_message()));
            },
        }
    }
    assert(nv.take(n as int) =~= nv);
    Ok(out)
}

proof fn lemma_tags_prefix(names: Seq<Seq<char>>, i: int)
    requires
        0 <= i <= names.len(),
        tags_of(names.take(i)) is Err,
    ensures
        tags_of(names) == tags_of(names.take(i)),
    decreases names.len() - i,
{
    if i < names.len() {
        assert(names.take(i + 1).drop_last() =~= names.take(i));
        lemma_tags_prefix(names, i + 1);
    } else {
        assert(names.take(i) =~= names);
    }
}

proof fn lemma_filters_prefix(items: Seq<JsonView>, i: int)
    requires
        0 <= i <= items.len(),
        filters_of(items.take(i)) is Err,
    ensures
        filters_of(items) == filters_of(items.take(i)),
    decreases items.len() - i,
{
    if i < items.len() {
        assert(items.take(i + 1).drop_last() =~= items.take(i));
        lemma_filters_prefix(items, i + 1);
    } else {
        assert(items.take(i) =~= items);
    }
}

proof fn lemma_comparators_prefix(items: Seq<JsonView>, i: int)
    requires
        0 <= i <= items.len(),
        comparators_of(items.take(i)) is Err,
    ensures
        comparators_of(items) == comparators_of(items.take(i)),
    decreases items.len() - i,
{
    if i < items.len() {
        assert(items.take(i + 1).drop_last() =~= items.take(i));
        lemma_comparators_prefix(items, i + 1);
    } else {
        assert(items.take(i) =~= items);
    }
}

/// A list-of-tags field.
pub fn tags_field_of(fields: &Vec<(String, Json)>, key: &str, required: bool) -> (r: Result<
    Vec<TagKey>,
    JsonError,
>)
    ensures
        match tags_field(fields_view(fields@), key@, required) {
            Ok(l) => r matches Ok(v) && v@ == l,
            Err(m) => r matches Err(e) && e.0@ == m,
        },
{
    let names = strings_field_of(fields, key, required)?;
    tags_from_names(&names)
}

/// A list-of-filters field.
pub fn filters_field_of(fields: &Vec<(String, Json)>, key: &str) -> (r: Result<FilterExpr, JsonError>)
    ensures
        match filters_field(fields_view(fields@), key@) {
            Ok(l) => r matches Ok(v) && filter_views(v.0@) == l,
            Err(Some(m)) => r matches Err(e) && e.0@ == m,
            Err(None) => r is Err,
        },
{
    let items = list_field_of(fields, key, false)?;
    let ghost iv = items_view(items@);
    let mut out: Vec<RegexFilter> = Vec::new();
    assert(filter_views(out@) =~= Seq::<(TagKey, Seq<char>)>::empty());
    assert(iv.take(0) =~= Seq::<JsonView>::empty());
    let n = items.len();
    for i in 0..n
        invariant
            n == items@.len(),
            iv == items_view(items@),
            list_field(fields_view(fields@), key@, false) == Ok::<Seq<JsonView>, Seq<char>>(iv),
            filters_of(iv.take(i as int)) == Ok::<Seq<(TagKey, Seq<char>)>, Option<Seq<char>>>(
                filter_views(out@),
            ),
    {
        assert(iv.take(i + 1).drop_last() =~= iv.take(i as int));
        assert(iv.take(i + 1).last() == items@[i as int]@);
        match RegexFilter::from_json(&items[i]) {
            Ok(f) => {
                let ghost o0 = filter_views(out@);
                let ghost fv = (f.tag, f.regex@);
                out.push(f);
                assert(filter_views(out@) =~= o0.push(fv));
            },
            Err(e) => {
                proof {
                    lemma_filters_prefix(iv, i as int + 1);
                }
                return Err(e);
            },
        }
    }
    assert(iv.take(n as int) =~= iv);
    Ok(FilterExpr(out))
}

/// A list-of-comparators field.
pub fn comparators_field_of(fields: &Vec<(String, Json)>, key: &str) -> (r: Result<
    Vec<Comparator>,
    JsonError,
>)
    ensures
        match comparators_field(fields_view(fields@), key@) {
            Ok(l) => r matches Ok(v) && v@ == l,
            Err(m) => r matches Err(e) && e.0@ == m,
        },
{
    let items = list_field_of(fields, key, false)?;
    let ghost iv = items_view(items@);
    let mut out: Vec<Comparator> = Vec::new();
    let n = items.len();
    for i in 0..n
        invariant
            n == items@.len(),
            iv == items_view(items@),
            list_field(fields_view(fields@), key@, false) == Ok::<Seq<JsonView>, Seq<char>>(iv),
            comparators_of(iv.take(i as int)) == Ok::<Seq<Comparator>, Seq<char>>(out@),
    {
        assert(iv.take(i + 1).drop_last() =~= iv.take(i as int));
        assert(iv.take(i + 1).last() == items@[i as int]@);
        match Comparator::from_json(&items[i]) {
            Ok(c) => {
                out.push(c);
            },
            Err(e) => {
                proof {
                    lemma_comparators_prefix(iv, i as int + 1);
                }
                return Err(e);
            },
        }
    }
    assert(iv.take(n as int) =~= iv);
    Ok(out)
}

/// `ls`: the directory to list.
#[derive(Debug)]
pub struct LsArgs(pub String);

/// `metadata`: the songs and the tags to report (those of `tags`, or every
/// supported tag when `all_tags` is true).
#[derive(Debug)]
pub struct MetadataArgs(pub Vec<String>, pub Vec<TagKey>);

/// `select`: the tags to report, the filters, the tags to group by and the sort.
#[derive(Debug)]
pub struct SelectArgs(pub Vec<TagKey>, pub FilterExpr, pub Vec<TagKey>, pub Vec<Comparator>);

/// `unique`: the tag whose values are wanted, the filters and the tags to group by.
#[derive(Debug)]
pub struct UniqueArgs(pub TagKey, pub FilterExpr, pub Vec<TagKey>);

/// Requests about the music database.
#[derive(Debug)]
pub enum DbRequestKind {
    Ls(LsArgs),
    Metadata(MetadataArgs),
    Select(SelectArgs),
    Unique(UniqueArgs),
    Update,
}

/// `disable`: the device.
#[derive(Debug)]
pub struct DisableArgs(pub String);

/// `enable`: the device.
#[derive(Debug)]
pub struct EnableArgs(pub String);

/// Requests about audio devices.
#[derive(Debug)]
pub enum DeviceRequestKind {
    Disable(DisableArgs),
    Enable(EnableArgs),
    Devices,
}

/// `volume` (also `changevol`): the change of volume.
#[derive(Debug)]
pub struct ChangeVolumeArgs(pub i8);

/// `seek`: seconds, backwards when negative.
#[derive(Debug)]
pub struct SeekArgs(pub i64);

/// `setvol`: the new volume.
#[derive(Debug)]
pub struct SetVolumeArgs(pub u8);

/// `speed` with the key `speed`: the new speed, in percent.
#[derive(Debug)]
pub struct SpeedArgs(pub u16);

/// `speed` with the key `delta`: the change of speed, in percentage points.
#[derive(Debug)]
pub struct ChangeSpeedArgs(pub i16);

/// Requests about playback.
#[derive(Debug)]
pub enum PlaybackRequestKind {
    ChangeVolume(ChangeVolumeArgs),
    Gapless,
    Pause,
    Resume,
    Seek(SeekArgs),
    SetVolume(SetVolumeArgs),
    Speed(SpeedArgs),
    ChangeSpeed(ChangeSpeedArgs),
    Stop,
    Toggle,
}

/// `addplaylist`: the playlist and the song.
#[derive(Debug)]
pub struct AddToPlaylistArgs(pub String, pub String);

/// `fromfile`: the playlist file.
#[derive(Debug)]
pub struct FromFileArgs(pub String);

/// `listsongs`: the playlist.
#[derive(Debug)]
pub struct ListSongsArgs(pub String);

/// `load`: the playlist, the range of its songs (inclusive) and the queue position.
#[derive(Debug)]
pub struct LoadArgs(pub String, pub Option<(usize, usize)>, pub Option<usize>);

/// `removeplaylist`: the playlist and the position of the song.
#[derive(Debug)]
pub struct RemoveFromPlaylistArgs(pub String, pub usize);

/// `save`: the playlist file to write.
#[derive(Debug)]
pub struct SaveArgs(pub String);

/// Requests about playlists.
#[derive(Debug)]
pub enum PlaylistRequestKind {
    AddToPlaylist(AddToPlaylistArgs),
    FromFile(FromFileArgs),
    ListSongs(ListSongsArgs),
    Load(LoadArgs),
    RemoveFromPlaylist(RemoveFromPlaylistArgs),
    Save(SaveArgs),
}

/// `addqueue`: the songs (relative or absolute paths) and the queue position.
#[derive(Debug)]
pub struct AddToQueueArgs(pub Vec<String>, pub Option<usize>);

/// `play`: the queue id.
#[derive(Debug)]
pub struct PlayArgs(pub u32);

/// `removequeue`: the queue ids.
#[derive(Debug)]
pub struct RemoveFromQueueArgs(pub Vec<u32>);

/// Requests about the queue.
#[derive(Debug)]
pub enum QueueRequestKind {
    AddToQueue(AddToQueueArgs),
    Clear,
    Next,
    Play(PlayArgs),
    Previous,
    Random,
    RemoveFromQueue(RemoveFromQueueArgs),
    Sequential,
    Single,
}

/// Requests about the player's state.
#[derive(Debug)]
pub enum StatusRequestKind {
    Playlists,
    Queue,
    State,
}

/// A request of a client.
#[derive(Debug)]
pub enum RequestKind {
    Db(DbRequestKind),
    Device(DeviceRequestKind),
    Playback(PlaybackRequestKind),
    Playlist(PlaylistRequestKind),
    Queue(QueueRequestKind),
    Status(StatusRequestKind),
}

/// What a request holds, as plain values (filters by tag and pattern).
pub enum RequestView {
    Ls(Seq<char>),
    Metadata(Seq<Seq<char>>, Seq<TagKey>),
    Select(Seq<TagKey>, Seq<(TagKey, Seq<char>)>, Seq<TagKey>, Seq<Comparator>),
    Unique(TagKey, Seq<(TagKey, Seq<char>)>, Seq<TagKey>),
    Update,
    Disable(Seq<char>),
    Enable(Seq<char>),
    Devices,
    ChangeVolume(i8),
    Gapless,
    Pause,
    Resume,
    Seek(i64),
    SetVolume(u8),
    Speed(u16),
    ChangeSpeed(i16),
    Stop,
    Toggle,
    AddToPlaylist(Seq<char>, Seq<char>),
    FromFile(Seq<char>),
    ListSongs(Seq<char>),
    Load(Seq<char>, Option<(usize, usize)>, Option<usize>),
    RemoveFromPlaylist(Seq<char>, usize),
    Save(Seq<char>),
    AddToQueue(Seq<Seq<char>>, Option<usize>),
    Clear,
    Next,
    Play(u32),
    Previous,
    Random,
    RemoveFromQueue(Seq<u32>),
    Sequential,
    Single,
    Playlists,
    Queue,
    State,
}

/// The plain values of a request.
pub open spec fn request_view(r: RequestKind) -> RequestView {
    match r {
        RequestKind::Db(DbRequestKind::Ls(LsArgs(d))) => RequestView::Ls(d@),
        RequestKind::Db(DbRequestKind::Metadata(MetadataArgs(p, t))) => RequestView::Metadata(string_views(p@), t@),
        RequestKind::Db(DbRequestKind::Select(SelectArgs(t, f, g, c))) => RequestView::Select(t@, filter_views(f.0@), g@, c@),
        RequestKind::Db(DbRequestKind::Unique(UniqueArgs(t, f, g))) => RequestView::Unique(t, filter_views(f.0@), g@),
        RequestKind::Db(DbRequestKind::Update) => RequestView::Update,
        RequestKind::Device(DeviceRequestKind::Disable(DisableArgs(d))) => RequestView::Disable(d@),
        RequestKind::Device(DeviceRequestKind::Enable(EnableArgs(d))) => RequestView::Enable(d@),
        RequestKind::Device(DeviceRequestKind::Devices) => RequestView::Devices,
        RequestKind::Playback(PlaybackRequestKind::ChangeVolume(ChangeVolumeArgs(d))) => RequestView::ChangeVolume(d),
        RequestKind::Playback(PlaybackRequestKind::Gapless) => RequestView::Gapless,
        RequestKind::Playback(PlaybackRequestKind::Pause) => RequestView::Pause,
        RequestKind::Playback(PlaybackRequestKind::Resume) => RequestView::Resume,
        RequestKind::Playback(PlaybackRequestKind::Seek(SeekArgs(s))) => RequestView::Seek(s),
        RequestKind::Playback(PlaybackRequestKind::SetVolume(SetVolumeArgs(v))) => RequestView::SetVolume(v),
        RequestKind::Playback(PlaybackRequestKind::Speed(SpeedArgs(s))) => RequestView::Speed(s),
        RequestKind::Playback(PlaybackRequestKind::ChangeSpeed(ChangeSpeedArgs(d))) => RequestView::ChangeSpeed(d),
        RequestKind::Playback(PlaybackRequestKind::Stop) => RequestView::Stop,
        RequestKind::Playback(PlaybackRequestKind::Toggle) => RequestView::Toggle,
        RequestKind::Playlist(PlaylistRequestKind::AddToPlaylist(AddToPlaylistArgs(p, s))) => RequestView::AddToPlaylist(p@, s@),
        RequestKind::Playlist(PlaylistRequestKind::FromFile(FromFileArgs(p))) => RequestView::FromFile(p@),
        RequestKind::Playlist(PlaylistRequestKind::ListSongs(ListSongsArgs(p))) => RequestView::ListSongs(p@),
        RequestKind::Playlist(PlaylistRequestKind::Load(LoadArgs(p, r, q))) => RequestView::Load(p@, r, q),
        RequestKind::Playlist(PlaylistRequestKind::RemoveFromPlaylist(RemoveFromPlaylistArgs(p, q))) => RequestView::RemoveFromPlaylist(p@, q),
        RequestKind::Playlist(PlaylistRequestKind::Save(SaveArgs(p))) => RequestView::Save(p@),
        RequestKind::Queue(QueueRequestKind::AddToQueue(AddToQueueArgs(p, q))) => RequestView::AddToQueue(string_views(p@), q),
        RequestKind::Queue(QueueRequestKind::Clear) => RequestView::Clear,
        RequestKind::Queue(QueueRequestKind::Next) => RequestView::Next,
        RequestKind::Queue(QueueRequestKind::Play(PlayArgs(i))) => RequestView::Play(i),
        RequestKind::Queue(QueueRequestKind::Previous) => RequestView::Previous,
        RequestKind::Queue(QueueRequestKind::Random) => RequestView::Random,
        RequestKind::Queue(QueueRequestKind::RemoveFromQueue(RemoveFromQueueArgs(i))) => RequestView::RemoveFromQueue(i@),
        RequestKind::Queue(QueueRequestKind::Sequential) => RequestView::Sequential,
        RequestKind::Queue(QueueRequestKind::Single) => RequestView::Single,
        RequestKind::Status(StatusRequestKind::Playlists) => RequestView::Playlists,
        RequestKind::Status(StatusRequestKind::Queue) => RequestView::Queue,
        RequestKind::Status(StatusRequestKind::State) => RequestView::State,
    }
}

/// A plain error lifted to the errors of request reading.
pub open spec fn lift(m: Seq<char>) -> Option<Seq<char>> {
    Some(m)
}

/// How a request of kind `name` is read from its fields, or the text of the error
/// (`None` when a regex does not compile: its text is the regex crate's).
pub open spec fn request_of_kind(name: Seq<char>, f: Seq<(Seq<char>, JsonView)>) -> Result<RequestView, Option<Seq<char>>> {
    if name == "ls"@ {
        match string_field(f, "dir"@) { Ok(d) => Ok(RequestView::Ls(d)), Err(m) => Err(lift(m)) }
    } else if name == "metadata"@ {
        match strings_field(f, "paths"@, true) {
            Ok(p) => if lookup(f, "tags"@) is None && lookup(f, "all_tags"@) is Some {
                match lookup(f, "all_tags"@) {
                    Some(JsonView::Bool(b)) => Ok(RequestView::Metadata(p, if b { all_tag_keys() } else { Seq::empty() })),
                    _ => Err(lift(wrong_type("all_tags"@))),
                }
            } else {
                match tags_field(f, "tags"@, true) {
                    Ok(t) => Ok(RequestView::Metadata(p, t)),
                    Err(m) => Err(lift(m)),
                }
            },
            Err(m) => Err(lift(m)),
        }
    } else if name == "select"@ {
        match tags_field(f, "tags"@, false) {
            Ok(t) => match filters_field(f, "filters"@) {
                Ok(fl) => match tags_field(f, "group_by"@, false) {
                    Ok(g) => match comparators_field(f, "comparators"@) {
                        Ok(c) => Ok(RequestView::Select(t, fl, g, c)),
                        Err(m) => Err(lift(m)),
                    },
                    Err(m) => Err(lift(m)),
                },
                Err(m) => Err(m),
            },
            Err(m) => Err(lift(m)),
        }
    } else if name == "unique"@ {
        match string_field(f, "tag"@) {
            Ok(name) => match tag_key_of_name(name) {
                Some(t) => match filters_field(f, "filters"@) {
                    Ok(fl) => match tags_field(f, "group_by"@, false) {
                        Ok(g) => Ok(RequestView::Unique(t, fl, g)),
                        Err(m) => Err(lift(m)),
                    },
                    Err(m) => Err(m),
                },
                None => Err(lift("invalid tag `"@ + name + "`"@)),
            },
            Err(m) => Err(lift(m)),
        }
    } else if name == "update"@ {
        Ok(RequestView::Update)
    } else if name == "disable"@ {
        match string_field(f, "device"@) { Ok(d) => Ok(RequestView::Disable(d)), Err(m) => Err(lift(m)) }
    } else if name == "enable"@ {
        match string_field(f, "device"@) { Ok(d) => Ok(RequestView::Enable(d)), Err(m) => Err(lift(m)) }
    } else if name == "devices"@ {
        Ok(RequestView::Devices)
    } else if name == "volume"@ || name == "changevol"@ {
        match int_field(f, "delta"@, -128, 127) { Ok(d) => Ok(RequestView::ChangeVolume(d as i8)), Err(m) => Err(lift(m)) }
    } else if name == "gapless"@ {
        Ok(RequestView::Gapless)
    } else if name == "pause"@ {
        Ok(RequestView::Pause)
    } else if name == "resume"@ {
        Ok(RequestView::Resume)
    } else if name == "seek"@ {
        match int_field(f, "seconds"@, i64::MIN as int, i64::MAX as int) { Ok(d) => Ok(RequestView::Seek(d as i64)), Err(m) => Err(lift(m)) }
    } else if name == "setvol"@ {
        match int_field(f, "volume"@, 0, 255) { Ok(d) => Ok(RequestView::SetVolume(d as u8)), Err(m) => Err(lift(m)) }
    } else if name == "speed"@ {
        if lookup(f, "speed"@) is Some {
            match int_field(f, "speed"@, 0, 65535) { Ok(d) => Ok(RequestView::Speed(d as u16)), Err(m) => Err(lift(m)) }
        } else {
            match int_field(f, "delta"@, -32768, 32767) { Ok(d) => Ok(RequestView::ChangeSpeed(d as i16)), Err(m) => Err(lift(m)) }
        }
    } else if name == "stop"@ {
        Ok(RequestView::Stop)
    } else if name == "toggle"@ {
        Ok(RequestView::Toggle)
    } else if name == "addplaylist"@ {
        match string_field(f, "playlist"@) {
            Ok(p) => match string_field(f, "song"@) {
                Ok(s) => Ok(RequestView::AddToPlaylist(p, s)),
                Err(m) => Err(lift(m)),
            },
            Err(m) => Err(lift(m)),
        }
    } else if name == "fromfile"@ {
        match string_field(f, "path"@) { Ok(d) => Ok(RequestView::FromFile(d)), Err(m) => Err(lift(m)) }
    } else if name == "listsongs"@ {
        match string_field(f, "playlist"@) { Ok(d) => Ok(RequestView::ListSongs(d)), Err(m) => Err(lift(m)) }
    } else if name == "load"@ {
        match string_field(f, "playlist"@) {
            Ok(p) => match opt_range_field(f, "range"@) {
                Ok(r) => match opt_index_field(f, "pos"@) {
                    Ok(q) => Ok(RequestView::Load(p, r, q)),
                    Err(m) => Err(lift(m)),
                },
                Err(m) => Err(lift(m)),
            },
            Err(m) => Err(lift(m)),
        }
    } else if name == "removeplaylist"@ {
        match string_field(f, "playlist"@) {
            Ok(p) => match int_field(f, "pos"@, 0, usize::MAX as int) {
                Ok(q) => Ok(RequestView::RemoveFromPlaylist(p, q as usize)),
                Err(m) => Err(lift(m)),
            },
            Err(m) => Err(lift(m)),
        }
    } else if name == "save"@ {
        match string_field(f, "path"@) { Ok(d) => Ok(RequestView::Save(d)), Err(m) => Err(lift(m)) }
    } else if name == "addqueue"@ {
        match strings_field(f, "paths"@, true) {
            Ok(p) => match opt_index_field(f, "pos"@) {
                Ok(q) => Ok(RequestView::AddToQueue(p, q)),
                Err(m) => Err(lift(m)),
            },
            Err(m) => Err(lift(m)),
        }
    } else if name == "clearqueue"@ || name == "clear"@ {
        Ok(RequestView::Clear)
    } else if name == "next"@ {
        Ok(RequestView::Next)
    } else if name == "play"@ {
        match int_field(f, "id"@, 0, u32::MAX as int) { Ok(d) => Ok(RequestView::Play(d as u32)), Err(m) => Err(lift(m)) }
    } else if name == "previous"@ {
        Ok(RequestView::Previous)
    } else if name == "moderandom"@ || name == "random"@ {
        Ok(RequestView::Random)
    } else if name == "removequeue"@ {
        match ids_field(f, "ids"@) { Ok(d) => Ok(RequestView::RemoveFromQueue(d)), Err(m) => Err(lift(m)) }
    } else if name == "modesequential"@ || name == "sequential"@ {
        Ok(RequestView::Sequential)
    } else if name == "modesingle"@ || name == "single"@ {
        Ok(RequestView::Single)
    } else if name == "playlists"@ {
        Ok(RequestView::Playlists)
    } else if name == "queue"@ {
        Ok(RequestView::Queue)
    } else if name == "state"@ {
        Ok(RequestView::State)
    } else {
        Err(lift("invalid value of key `kind`: `"@ + name + "`"@))
    }
}

/// How a request is read from JSON: an object whose `kind` names the request, with
/// the arguments that kind takes.
pub open spec fn request_of_json(v: JsonView) -> Result<RequestView, Option<Seq<char>>> {
    match v {
        JsonView::Object(f) => match lookup(f, "kind"@) {
            None => Err(lift(missing_key("kind"@))),
            Some(k) => match str_of(k) {
                None => Err(lift(wrong_type("kind"@))),
                Some(name) => request_of_kind(name, f),
            },
        },
        _ => Err(lift("a request must be a JSON map"@)),
    }
}

impl RequestKind {
    /// Reads the request of kind `name` from its fields.
    pub fn from_kind(name: &str, fields: &Vec<(String, Json)>) -> (r: Result<RequestKind, JsonError>)
        ensures
            match request_of_kind(name@, fields_view(fields@)) {
                Ok(v) => r matches Ok(k) && request_view(k) == v,
                Err(Some(m)) => r matches Err(e) && e.0@ == m,
                Err(None) => r is Err,
            },
    {
        let kind = 
        if str_eq(name, "ls") {
            RequestKind::Db(DbRequestKind::Ls(LsArgs(string_field_of(fields, "dir")?)))
        } else if str_eq(name, "metadata") {
            let p = strings_field_of(fields, "paths", true)?;
            let t = if get(fields, "tags").is_none() && get(fields, "all_tags").is_some() {
                match get(fields, "all_tags") {
                    Some(Json::Bool(b)) => if *b {
                        TagKey::all()
                    } else {
                        Vec::new()
                    },
                    _ => return Err(wrong_type_error("all_tags")),
                }
            } else {
                tags_field_of(fields, "tags", true)?
            };
            RequestKind::Db(DbRequestKind::Metadata(MetadataArgs(p, t)))
        } else if str_eq(name, "select") {
            let t = tags_field_of(fields, "tags", false)?;
            let fl = filters_field_of(fields, "filters")?;
            let g = tags_field_of(fields, "group_by", false)?;
            let c = comparators_field_of(fields, "comparators")?;
            RequestKind::Db(DbRequestKind::Select(SelectArgs(t, fl, g, c)))
        } else if str_eq(name, "unique") {
            let name = string_field_of(fields, "tag")?;
            let t = match TagKey::try_from_name(name.as_str()) {
                Ok(t) => t,
                Err(e) => return Err(JsonError(e.to_message())),
            };
            let fl = filters_field_of(fields, "filters")?;
            let g = tags_field_of(fields, "group_by", false)?;
            RequestKind::Db(DbRequestKind::Unique(UniqueArgs(t, fl, g)))
        } else if str_eq(name, "update") {
            RequestKind::Db(DbRequestKind::Update)
        } else if str_eq(name, "disable") {
            RequestKind::Device(DeviceRequestKind::Disable(DisableArgs(string_field_of(fields, "device")?)))
        } else if str_eq(name, "enable") {
            RequestKind::Device(DeviceRequestKind::Enable(EnableArgs(string_field_of(fields, "device")?)))
        } else if str_eq(name, "devices") {
            RequestKind::Device(DeviceRequestKind::Devices)
        } else if str_eq(name, "volume") || str_eq(name, "changevol") {
            RequestKind::Playback(PlaybackRequestKind::ChangeVolume(ChangeVolumeArgs(int_field_of(fields, "delta", -128, 127)? as i8)))
        } else if str_eq(name, "gapless") {
            RequestKind::Playback(PlaybackRequestKind::Gapless)
        } else if str_eq(name, "pause") {
            RequestKind::Playback(PlaybackRequestKind::Pause)
        } else if str_eq(name, "resume") {
            RequestKind::Playback(PlaybackRequestKind::Resume)
        } else if str_eq(name, "seek") {
            RequestKind::Playback(PlaybackRequestKind::Seek(SeekArgs(int_field_of(fields, "seconds", i64::MIN, i64::MAX as u64)? as i64)))
        } else if str_eq(name, "setvol") {
            RequestKind::Playback(PlaybackRequestKind::SetVolume(SetVolumeArgs(int_field_of(fields, "volume", 0, 255)? as u8)))
        } else if str_eq(name, "speed") {
            if get(fields, "speed").is_some() {
                RequestKind::Playback(PlaybackRequestKind::Speed(SpeedArgs(int_field_of(fields, "speed", 0, 65535)? as u16)))
            } else {
                let d = int_field_of(fields, "delta", -32768, 32767)? as i16;
                RequestKind::Playback(PlaybackRequestKind::ChangeSpeed(ChangeSpeedArgs(d)))
            }
        } else if str_eq(name, "stop") {
            RequestKind::Playback(PlaybackRequestKind::Stop)
        } else if str_eq(name, "toggle") {
            RequestKind::Playback(PlaybackRequestKind::Toggle)
        } else if str_eq(name, "addplaylist") {
            let p = string_field_of(fields, "playlist")?;
            let s = string_field_of(fields, "song")?;
            RequestKind::Playlist(PlaylistRequestKind::AddToPlaylist(AddToPlaylistArgs(p, s)))
        } else if str_eq(name, "fromfile") {
            RequestKind::Playlist(PlaylistRequestKind::FromFile(FromFileArgs(string_field_of(fields, "path")?)))
        } else if str_eq(name, "listsongs") {
            RequestKind::Playlist(PlaylistRequestKind::ListSongs(ListSongsArgs(string_field_of(fields, "playlist")?)))
        } else if str_eq(name, "load") {
            let p = string_field_of(fields, "playlist")?;
            let r = opt_range_field_of(fields, "range")?;
            let q = opt_index_field_of(fields, "pos")?;
            RequestKind::Playlist(PlaylistRequestKind::Load(LoadArgs(p, r, q)))
        } else if str_eq(name, "removeplaylist") {
            let p = string_field_of(fields, "playlist")?;
            let q = int_field_of(fields, "pos", 0, usize::MAX as u64)? as usize;
            RequestKind::Playlist(PlaylistRequestKind::RemoveFromPlaylist(RemoveFromPlaylistArgs(p, q)))
        } else if str_eq(name, "save") {
            RequestKind::Playlist(PlaylistRequestKind::Save(SaveArgs(string_field_of(fields, "path")?)))
        } else if str_eq(name, "addqueue") {
            let p = strings_field_of(fields, "paths", true)?;
            let q = opt_index_field_of(fields, "pos")?;
            RequestKind::Queue(QueueRequestKind::AddToQueue(AddToQueueArgs(p, q)))
        } else if str_eq(name, "clearqueue") || str_eq(name, "clear") {
            RequestKind::Queue(QueueRequestKind::Clear)
        } else if str_eq(name, "next") {
            RequestKind::Queue(QueueRequestKind::Next)
        } else if str_eq(name, "play") {
            RequestKind::Queue(QueueRequestKind::Play(PlayArgs(int_field_of(fields, "id", 0, 4294967295)? as u32)))
        } else if str_eq(name, "previous") {
            RequestKind::Queue(QueueRequestKind::Previous)
        } else if str_eq(name, "moderandom") || str_eq(name, "random") {
            RequestKind::Queue(QueueRequestKind::Random)
        } else if str_eq(name, "removequeue") {
            RequestKind::Queue(QueueRequestKind::RemoveFromQueue(RemoveFromQueueArgs(ids_field_of(fields, "ids")?)))
        } else if str_eq(name, "modesequential") || str_eq(name, "sequential") {
            RequestKind::Queue(QueueRequestKind::Sequential)
        } else if str_eq(name, "modesingle") || str_eq(name, "single") {
            RequestKind::Queue(QueueRequestKind::Single)
        } else if str_eq(name, "playlists") {
            RequestKind::Status(StatusRequestKind::Playlists)
        } else if str_eq(name, "queue") {
            RequestKind::Status(StatusRequestKind::Queue)
        } else if str_eq(name, "state") {
            RequestKind::Status(StatusRequestKind::State)
        } else {
            let mut m = String::from_str("invalid value of key `kind`: `");
            m.append(name);
            m.append("`");
            return Err(JsonError(m));
        };
        Ok(kind)
    }

    /// Reads a request from the text of a message: the text must hold one JSON
    /// object, read as `from_json` reads it.
    pub fn try_from_text(text: &str) -> (r: Result<RequestKind, JsonError>)
        ensures
            match json_of_text(text@) {
                Err(m) => r matches Err(e) && e.0@ == m,
                Ok(v) => match request_of_json(v) {
                    Ok(rv) => r matches Ok(k) && request_view(k) == rv,
                    Err(Some(m)) => r matches Err(e) && e.0@ == m,
                    Err(None) => r is Err,
                },
            },
    {
        match parse_json(text) {
            Ok(v) => RequestKind::from_json(&v),
            Err(m) => Err(JsonError(m)),
        }
    }

    /// Reads a request from its JSON object.
    pub fn from_json(v: &Json) -> (r: Result<RequestKind, JsonError>)
        ensures
            match request_of_json(v@) {
                Ok(rv) => r matches Ok(k) && request_view(k) == rv,
                Err(Some(m)) => r matches Err(e) && e.0@ == m,
                Err(None) => r is Err,
            },
    {
        let fields = match v {
            Json::Object(fields) => fields,
            _ => return Err(JsonError(String::from_str("a request must be a JSON map"))),
        };
        proof {
            lemma_object_view(v, *fields);
        }
        let name = string_field_of(fields, "kind")?;
        RequestKind::from_kind(name.as_str(), fields)
    }
}

/// Each request name is read as the request it names, whatever the other fields
/// hold: a name that takes no argument gives its request, and a name that takes
/// arguments gives, when they are read, a request of its own kind.
pub proof fn lemma_request_names(f: Seq<(Seq<char>, JsonView)>)
    ensures
        request_of_kind("update"@, f) == Ok::<RequestView, Option<Seq<char>>>(RequestView::Update),
        request_of_kind("devices"@, f) == Ok::<RequestView, Option<Seq<char>>>(RequestView::Devices),
        request_of_kind("gapless"@, f) == Ok::<RequestView, Option<Seq<char>>>(RequestView::Gapless),
        request_of_kind("pause"@, f) == Ok::<RequestView, Option<Seq<char>>>(RequestView::Pause),
        request_of_kind("resume"@, f) == Ok::<RequestView, Option<Seq<char>>>(RequestView::Resume),
        request_of_kind("stop"@, f) == Ok::<RequestView, Option<Seq<char>>>(RequestView::Stop),
        request_of_kind("toggle"@, f) == Ok::<RequestView, Option<Seq<char>>>(RequestView::Toggle),
        request_of_kind("clearqueue"@, f) == Ok::<RequestView, Option<Seq<char>>>(RequestView::Clear),
        request_of_kind("clear"@, f) == Ok::<RequestView, Option<Seq<char>>>(RequestView::Clear),
        request_of_kind("next"@, f) == Ok::<RequestView, Option<Seq<char>>>(RequestView::Next),
        request_of_kind("previous"@, f) == Ok::<RequestView, Option<Seq<char>>>(RequestView::Previous),
        request_of_kind("moderandom"@, f) == Ok::<RequestView, Option<Seq<char>>>(RequestView::Random),
        request_of_kind("random"@, f) == Ok::<RequestView, Option<Seq<char>>>(RequestView::Random),
        request_of_kind("modesequential"@, f) == Ok::<RequestView, Option<Seq<char>>>(RequestView::Sequential),
        request_of_kind("sequential"@, f) == Ok::<RequestView, Option<Seq<char>>>(RequestView::Sequential),
        request_of_kind("modesingle"@, f) == Ok::<RequestView, Option<Seq<char>>>(RequestView::Single),
        request_of_kind("single"@, f) == Ok::<RequestView, Option<Seq<char>>>(RequestView::Single),
        request_of_kind("playlists"@, f) == Ok::<RequestView, Option<Seq<char>>>(RequestView::Playlists),
        request_of_kind("queue"@, f) == Ok::<RequestView, Option<Seq<char>>>(RequestView::Queue),
        request_of_kind("state"@, f) == Ok::<RequestView, Option<Seq<char>>>(RequestView::State),
        request_of_kind("ls"@, f) matches Ok(v) ==> v is Ls,
        request_of_kind("metadata"@, f) matches Ok(v) ==> v is Metadata,
        request_of_kind("select"@, f) matches Ok(v) ==> v is Select,
        request_of_kind("unique"@, f) matches Ok(v) ==> v is Unique,
        request_of_kind("disable"@, f) matches Ok(v) ==> v is Disable,
        request_of_kind("enable"@, f) matches Ok(v) ==> v is Enable,
        request_of_kind("volume"@, f) matches Ok(v) ==> v is ChangeVolume,
        request_of_kind("changevol"@, f) matches Ok(v) ==> v is ChangeVolume,
        request_of_kind("seek"@, f) matches Ok(v) ==> v is Seek,
        request_of_kind("setvol"@, f) matches Ok(v) ==> v is SetVolume,
        request_of_kind("addplaylist"@, f) matches Ok(v) ==> v is AddToPlaylist,
        request_of_kind("fromfile"@, f) matches Ok(v) ==> v is FromFile,
        request_of_kind("listsongs"@, f) matches Ok(v) ==> v is ListSongs,
        request_of_kind("load"@, f) matches Ok(v) ==> v is Load,
        request_of_kind("removeplaylist"@, f) matches Ok(v) ==> v is RemoveFromPlaylist,
        request_of_kind("save"@, f) matches Ok(v) ==> v is Save,
        request_of_kind("addqueue"@, f) matches Ok(v) ==> v is AddToQueue,
        request_of_kind("play"@, f) matches Ok(v) ==> v is Play,
        request_of_kind("removequeue"@, f) matches Ok(v) ==> v is RemoveFromQueue,
        request_of_kind("speed"@, f) matches Ok(v) ==> (v is Speed || v is ChangeSpeed),
{
    reveal_strlit("update");
    reveal_strlit("devices");
    reveal_strlit("gapless");
    reveal_strlit("pause");
    reveal_strlit("resume");
    reveal_strlit("stop");
    reveal_strlit("toggle");
    reveal_strlit("clearqueue");
    reveal_strlit("clear");
    reveal_strlit("next");
    reveal_strlit("previous");
    reveal_strlit("moderandom");
    reveal_strlit("random");
    reveal_strlit("modesequential");
    reveal_strlit("sequential");
    reveal_strlit("modesingle");
    reveal_strlit("single");
    reveal_strlit("playlists");
    reveal_strlit("queue");
    reveal_strlit("state");
    reveal_strlit("ls");
    reveal_strlit("metadata");
    reveal_strlit("select");
    reveal_strlit("unique");
    reveal_strlit("disable");
    reveal_strlit("enable");
    reveal_strlit("volume");
    reveal_strlit("changevol");
    reveal_strlit("seek");
    reveal_strlit("setvol");
    reveal_strlit("addplaylist");
    reveal_strlit("fromfile");
    reveal_strlit("listsongs");
    reveal_strlit("load");
    reveal_strlit("removeplaylist");
    reveal_strlit("save");
    reveal_strlit("addqueue");
    reveal_strlit("play");
    reveal_strlit("removequeue");
    reveal_strlit("speed");
    // names of one length differ at the character compared here
    assert("unique"@[0] != "select"@[0]);
    assert("update"@[0] != "select"@[0]);
    assert("update"@[1] != "unique"@[1]);
    assert("enable"@[0] != "select"@[0]);
    assert("enable"@[0] != "unique"@[0]);
    assert("enable"@[0] != "update"@[0]);
    assert("devices"@[1] != "disable"@[1]);
    assert("volume"@[0] != "select"@[0]);
    assert("volume"@[0] != "unique"@[0]);
    assert("volume"@[0] != "update"@[0]);
    assert("volume"@[0] != "enable"@[0]);
    assert("gapless"@[0] != "disable"@[0]);
    assert("gapless"@[0] != "devices"@[0]);
    assert("resume"@[0] != "select"@[0]);
    assert("resume"@[0] != "unique"@[0]);
    assert("resume"@[0] != "update"@[0]);
    assert("resume"@[0] != "enable"@[0]);
    assert("resume"@[0] != "volume"@[0]);
    assert("setvol"@[2] != "select"@[2]);
    assert("setvol"@[0] != "unique"@[0]);
    assert("setvol"@[0] != "update"@[0]);
    assert("setvol"@[0] != "enable"@[0]);
    assert("setvol"@[0] != "volume"@[0]);
    assert("setvol"@[0] != "resume"@[0]);
    assert("speed"@[0] != "pause"@[0]);
    assert("stop"@[1] != "seek"@[1]);
    assert("toggle"@[0] != "select"@[0]);
    assert("toggle"@[0] != "unique"@[0]);
    assert("toggle"@[0] != "update"@[0]);
    assert("toggle"@[0] != "enable"@[0]);
    assert("toggle"@[0] != "volume"@[0]);
    assert("toggle"@[0] != "resume"@[0]);
    assert("toggle"@[0] != "setvol"@[0]);
    assert("fromfile"@[0] != "metadata"@[0]);
    assert("listsongs"@[0] != "changevol"@[0]);
    assert("load"@[0] != "seek"@[0]);
    assert("load"@[0] != "stop"@[0]);
    assert("save"@[1] != "seek"@[1]);
    assert("save"@[1] != "stop"@[1]);
    assert("save"@[0] != "load"@[0]);
    assert("addqueue"@[0] != "metadata"@[0]);
    assert("addqueue"@[0] != "fromfile"@[0]);
    assert("clear"@[0] != "pause"@[0]);
    assert("clear"@[0] != "speed"@[0]);
    assert("next"@[0] != "seek"@[0]);
    assert("next"@[0] != "stop"@[0]);
    assert("next"@[0] != "load"@[0]);
    assert("next"@[0] != "save"@[0]);
    assert("play"@[0] != "seek"@[0]);
    assert("play"@[0] != "stop"@[0]);
    assert("play"@[0] != "load"@[0]);
    assert("play"@[0] != "save"@[0]);
    assert("play"@[0] != "next"@[0]);
    assert("previous"@[0] != "metadata"@[0]);
    assert("previous"@[0] != "fromfile"@[0]);
    assert("previous"@[0] != "addqueue"@[0]);
    assert("moderandom"@[0] != "clearqueue"@[0]);
    assert("random"@[0] != "select"@[0]);
    assert("random"@[0] != "unique"@[0]);
    assert("random"@[0] != "update"@[0]);
    assert("random"@[0] != "enable"@[0]);
    assert("random"@[0] != "volume"@[0]);
    assert("random"@[1] != "resume"@[1]);
    assert("random"@[0] != "setvol"@[0]);
    assert("random"@[0] != "toggle"@[0]);
    assert("removequeue"@[0] != "addplaylist"@[0]);
    assert("modesequential"@[0] != "removeplaylist"@[0]);
    assert("sequential"@[0] != "clearqueue"@[0]);
    assert("sequential"@[0] != "moderandom"@[0]);
    assert("modesingle"@[0] != "clearqueue"@[0]);
    assert("modesingle"@[4] != "moderandom"@[4]);
    assert("modesingle"@[0] != "sequential"@[0]);
    assert("single"@[1] != "select"@[1]);
    assert("single"@[0] != "unique"@[0]);
    assert("single"@[0] != "update"@[0]);
    assert("single"@[0] != "enable"@[0]);
    assert("single"@[0] != "volume"@[0]);
    assert("single"@[0] != "resume"@[0]);
    assert("single"@[1] != "setvol"@[1]);
    assert("single"@[0] != "toggle"@[0]);
    assert("single"@[0] != "random"@[0]);
    assert("playlists"@[0] != "changevol"@[0]);
    assert("playlists"@[0] != "listsongs"@[0]);
    assert("queue"@[0] != "pause"@[0]);
    assert("queue"@[0] != "speed"@[0]);
    assert("queue"@[0] != "clear"@[0]);
    assert("state"@[0] != "pause"@[0]);
    assert("state"@[1] != "speed"@[1]);
    assert("state"@[0] != "clear"@[0]);
    assert("state"@[0] != "queue"@[0]);
}

/// The plain values of a request tell which request it is.
pub proof fn lemma_request_view_kinds(k: RequestKind)
    ensures
        (request_view(k) == RequestView::Update) <==> (k == RequestKind::Db(DbRequestKind::Update)),
        (request_view(k) == RequestView::Devices) <==> (k == RequestKind::Device(DeviceRequestKind::Devices)),
        (request_view(k) == RequestView::Gapless) <==> (k == RequestKind::Playback(PlaybackRequestKind::Gapless)),
        (request_view(k) == RequestView::Pause) <==> (k == RequestKind::Playback(PlaybackRequestKind::Pause)),
        (request_view(k) == RequestView::Resume) <==> (k == RequestKind::Playback(PlaybackRequestKind::Resume)),
        (request_view(k) == RequestView::Stop) <==> (k == RequestKind::Playback(PlaybackRequestKind::Stop)),
        (request_view(k) == RequestView::Toggle) <==> (k == RequestKind::Playback(PlaybackRequestKind::Toggle)),
        (request_view(k) == RequestView::Clear) <==> (k == RequestKind::Queue(QueueRequestKind::Clear)),
        (request_view(k) == RequestView::Next) <==> (k == RequestKind::Queue(QueueRequestKind::Next)),
        (request_view(k) == RequestView::Previous) <==> (k == RequestKind::Queue(QueueRequestKind::Previous)),
        (request_view(k) == RequestView::Random) <==> (k == RequestKind::Queue(QueueRequestKind::Random)),
        (request_view(k) == RequestView::Sequential) <==> (k == RequestKind::Queue(QueueRequestKind::Sequential)),
        (request_view(k) == RequestView::Single) <==> (k == RequestKind::Queue(QueueRequestKind::Single)),
        (request_view(k) == RequestView::Playlists) <==> (k == RequestKind::Status(StatusRequestKind::Playlists)),
        (request_view(k) == RequestView::Queue) <==> (k == RequestKind::Status(StatusRequestKind::Queue)),
        (request_view(k) == RequestView::State) <==> (k == RequestKind::Status(StatusRequestKind::State)),
        (request_view(k) is Ls) <==> (k matches RequestKind::Db(DbRequestKind::Ls(_))),
        (request_view(k) is Metadata) <==> (k matches RequestKind::Db(DbRequestKind::Metadata(_))),
        (request_view(k) is Select) <==> (k matches RequestKind::Db(DbRequestKind::Select(_))),
        (request_view(k) is Unique) <==> (k matches RequestKind::Db(DbRequestKind::Unique(_))),
        (request_view(k) is Disable) <==> (k matches RequestKind::Device(DeviceRequestKind::Disable(_))),
        (request_view(k) is Enable) <==> (k matches RequestKind::Device(DeviceRequestKind::Enable(_))),
        (request_view(k) is ChangeVolume) <==> (k matches RequestKind::Playback(PlaybackRequestKind::ChangeVolume(_))),
        (request_view(k) is Seek) <==> (k matches RequestKind::Playback(PlaybackRequestKind::Seek(_))),
        (request_view(k) is SetVolume) <==> (k matches RequestKind::Playback(PlaybackRequestKind::SetVolume(_))),
        (request_view(k) is AddToPlaylist) <==> (k matches RequestKind::Playlist(PlaylistRequestKind::AddToPlaylist(_))),
        (request_view(k) is FromFile) <==> (k matches RequestKind::Playlist(PlaylistRequestKind::FromFile(_))),
        (request_view(k) is ListSongs) <==> (k matches RequestKind::Playlist(PlaylistRequestKind::ListSongs(_))),
        (request_view(k) is Load) <==> (k matches RequestKind::Playlist(PlaylistRequestKind::Load(_))),
        (request_view(k) is RemoveFromPlaylist) <==> (k matches RequestKind::Playlist(PlaylistRequestKind::RemoveFromPlaylist(_))),
        (request_view(k) is Save) <==> (k matches RequestKind::Playlist(PlaylistRequestKind::Save(_))),
        (request_view(k) is AddToQueue) <==> (k matches RequestKind::Queue(QueueRequestKind::AddToQueue(_))),
        (request_view(k) is Play) <==> (k matches RequestKind::Queue(QueueRequestKind::Play(_))),
        (request_view(k) is RemoveFromQueue) <==> (k matches RequestKind::Queue(QueueRequestKind::RemoveFromQueue(_))),
        (request_view(k) is Speed) <==> (k matches RequestKind::Playback(PlaybackRequestKind::Speed(_))),
        (request_view(k) is ChangeSpeed) <==> (k matches RequestKind::Playback(PlaybackRequestKind::ChangeSpeed(_))),
{
}

} // verus!
