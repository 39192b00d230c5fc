use musing::model::json::{Json, Number};
use musing::model::request::{
    AddToQueueArgs, ChangeSpeedArgs, ChangeVolumeArgs, DbRequestKind, LoadArgs, LsArgs, MetadataArgs, PlayArgs,
    PlaybackRequestKind, PlaylistRequestKind, QueueRequestKind, RequestKind, SelectArgs, SeekArgs, SpeedArgs,
    StatusRequestKind,
};

fn s(x: &str) -> Json {
    Json::Str(x.into())
}

fn n(x: u64) -> Json {
    Json::Number(Number::PosInt(x))
}

fn obj(fields: Vec<(&str, Json)>) -> Json {
    Json::Object(fields.into_iter().map(|(k, v)| (k.to_string(), v)).collect())
}

fn err(v: Json) -> String {
    RequestKind::from_json(&v).unwrap_err().0
}

#[test]
fn reads_simple_requests() {
    let r = RequestKind::from_json(&obj(vec![("kind", s("ls")), ("dir", s("/x"))])).unwrap();
    assert!(matches!(r, RequestKind::Db(DbRequestKind::Ls(LsArgs(ref d))) if d == "/x"));
    let r = RequestKind::from_json(&obj(vec![("kind", s("play")), ("id", n(5))])).unwrap();
    assert!(matches!(r, RequestKind::Queue(QueueRequestKind::Play(PlayArgs(5)))));
    let r = RequestKind::from_json(&obj(vec![("kind", s("seek")), ("seconds", Json::Number(Number::NegInt(-10)))])).unwrap();
    assert!(matches!(r, RequestKind::Playback(PlaybackRequestKind::Seek(SeekArgs(-10)))));
    let r = RequestKind::from_json(&obj(vec![("kind", s("state"))])).unwrap();
    assert!(matches!(r, RequestKind::Status(StatusRequestKind::State)));
    let r = RequestKind::from_json(&obj(vec![
        ("kind", s("addqueue")),
        ("paths", Json::Array(vec![s("a.mp3"), s("b.mp3")])),
        ("pos", n(3)),
    ]))
    .unwrap();
    assert!(matches!(r, RequestKind::Queue(QueueRequestKind::AddToQueue(AddToQueueArgs(ref p, Some(3)))) if p.len() == 2));
    let r = RequestKind::from_json(&obj(vec![
        ("kind", s("load")),
        ("playlist", s("p.m3u")),
        ("range", Json::Array(vec![n(1), n(4)])),
    ]))
    .unwrap();
    assert!(matches!(r, RequestKind::Playlist(PlaylistRequestKind::Load(LoadArgs(ref p, Some((1, 4)), None))) if p == "p.m3u"));
}

#[test]
fn reads_select_and_metadata() {
    let r = RequestKind::from_json(&obj(vec![
        ("kind", s("select")),
        ("tags", Json::Array(vec![s("tracktitle")])),
        ("filters", Json::Array(vec![obj(vec![("kind", s("regex")), ("tag", s("albumartist")), ("regex", s("^M.*"))])])),
        ("group_by", Json::Array(vec![s("album")])),
        ("comparators", Json::Array(vec![obj(vec![("tag", s("tracknumber")), ("order", s("descending"))])])),
    ]))
    .unwrap();
    match r {
        RequestKind::Db(DbRequestKind::Select(SelectArgs(tags, filters, group_by, comparators))) => {
            assert_eq!(tags.len(), 1);
            assert_eq!(tags[0].name(), "tracktitle");
            assert_eq!(filters.0.len(), 1);
            assert_eq!(group_by[0].name(), "album");
            assert_eq!(comparators[0].tag.name(), "tracknumber");
        }
        other => panic!("unexpected {:?}", other),
    }
    let r = RequestKind::from_json(&obj(vec![
        ("kind", s("metadata")),
        ("paths", Json::Array(vec![s("/some/song.mp3")])),
        ("tags", Json::Array(vec![s("artist")])),
    ]))
    .unwrap();
    assert!(matches!(r, RequestKind::Db(DbRequestKind::Metadata(MetadataArgs(ref p, ref t))) if p.len() == 1 && t.len() == 1));
}

#[test]
fn request_errors() {
    assert_eq!(err(s("ls")), "a request must be a JSON map");
    assert_eq!(err(obj(vec![("dir", s("x"))])), "key `kind` not found");
    assert_eq!(err(obj(vec![("kind", n(1))])), "key `kind` has the wrong type");
    assert_eq!(err(obj(vec![("kind", s("dance"))])), "invalid value of key `kind`: `dance`");
    assert_eq!(err(obj(vec![("kind", s("ls"))])), "key `dir` not found");
    assert_eq!(err(obj(vec![("kind", s("setvol")), ("volume", n(300))])), "key `volume` has the wrong type");
    assert_eq!(
        err(obj(vec![("kind", s("metadata")), ("paths", Json::Array(vec![])), ("tags", Json::Array(vec![s("bogus")]))])),
        "invalid tag `bogus`"
    );
}

#[test]
fn reads_the_documented_request_names() {
    let q = |kind: &str| RequestKind::try_from_text(&format!("{{\"kind\": \"{}\"}}", kind)).unwrap();
    assert!(matches!(q("clearqueue"), RequestKind::Queue(QueueRequestKind::Clear)));
    assert!(matches!(q("modesingle"), RequestKind::Queue(QueueRequestKind::Single)));
    assert!(matches!(q("moderandom"), RequestKind::Queue(QueueRequestKind::Random)));
    assert!(matches!(q("modesequential"), RequestKind::Queue(QueueRequestKind::Sequential)));
    // the shorter names are read too
    assert!(matches!(q("clear"), RequestKind::Queue(QueueRequestKind::Clear)));
    assert!(matches!(q("random"), RequestKind::Queue(QueueRequestKind::Random)));
}

#[test]
fn reads_volume_and_speed_changes() {
    let r = RequestKind::try_from_text(r#"{"kind": "volume", "delta": -5}"#).unwrap();
    assert!(matches!(r, RequestKind::Playback(PlaybackRequestKind::ChangeVolume(ChangeVolumeArgs(-5)))));
    let r = RequestKind::try_from_text(r#"{"kind": "changevol", "delta": 7}"#).unwrap();
    assert!(matches!(r, RequestKind::Playback(PlaybackRequestKind::ChangeVolume(ChangeVolumeArgs(7)))));
    let r = RequestKind::try_from_text(r#"{"kind": "speed", "delta": -30}"#).unwrap();
    assert!(matches!(r, RequestKind::Playback(PlaybackRequestKind::ChangeSpeed(ChangeSpeedArgs(-30)))));
    let r = RequestKind::try_from_text(r#"{"kind": "speed", "speed": 150}"#).unwrap();
    assert!(matches!(r, RequestKind::Playback(PlaybackRequestKind::Speed(SpeedArgs(150)))));
    let e = RequestKind::try_from_text(r#"{"kind": "speed"}"#).unwrap_err().0;
    assert_eq!(e, "key `delta` not found");
}

#[test]
fn reads_requests_from_text() {
    let r = RequestKind::try_from_text(r#"{"kind": "play", "id": 12}"#).unwrap();
    assert!(matches!(r, RequestKind::Queue(QueueRequestKind::Play(PlayArgs(12)))));
    let r = RequestKind::try_from_text(r#"{"kind": "ls", "dir": "a/b"}"#).unwrap();
    assert!(matches!(r, RequestKind::Db(DbRequestKind::Ls(LsArgs(ref d))) if d == "a/b"));
    // not JSON at all: serde's own message
    assert!(RequestKind::try_from_text("kind").is_err());
    assert_eq!(RequestKind::try_from_text("[1, 2]").unwrap_err().0, "a request must be a JSON map");
    assert_eq!(RequestKind::try_from_text(r#"{"kind": "nope"}"#).unwrap_err().0, "invalid value of key `kind`: `nope`");
}

#[test]
fn metadata_can_ask_for_every_tag() {
    let r = RequestKind::try_from_text(r#"{"kind": "metadata", "paths": ["a.mp3"], "all_tags": true}"#).unwrap();
    match r {
        RequestKind::Db(DbRequestKind::Metadata(MetadataArgs(p, t))) => {
            assert_eq!(p, vec!["a.mp3".to_string()]);
            assert_eq!(t.len(), 30);
            assert_eq!(t[0].name(), "album");
            assert_eq!(t[29].name(), "tracktitle");
        }
        other => panic!("{:?}", other),
    }
    let r = RequestKind::try_from_text(r#"{"kind": "metadata", "paths": [], "all_tags": false}"#).unwrap();
    assert!(matches!(r, RequestKind::Db(DbRequestKind::Metadata(MetadataArgs(_, ref t))) if t.is_empty()));
    let e = RequestKind::try_from_text(r#"{"kind": "metadata", "paths": [], "all_tags": 1}"#).unwrap_err().0;
    assert_eq!(e, "key `all_tags` has the wrong type");
    let e = RequestKind::try_from_text(r#"{"kind": "metadata", "paths": []}"#).unwrap_err().0;
    assert_eq!(e, "key `tags` not found");
}
