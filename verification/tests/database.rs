use musing::database::{binary_search_by_path, ignored_dirs_of, to_data_rows, update_response, Database, RowCheck};
use musing::model::comparator::{Comparator, ComparisonOrder};
use musing::model::filter::{FilterExpr, RegexFilter};
use musing::model::json::{Json, Number};
use musing::model::queue::Entry;
use musing::model::request::{LsArgs, MetadataArgs, SelectArgs};
use musing::model::response::Response;
use musing::model::song::{Metadata, Song};
use musing::model::tag_key::TagKey;

fn tag(name: &str) -> TagKey {
    TagKey::try_from_name(name).unwrap()
}

fn regex_filter(tag_name: &str, pattern: &str) -> RegexFilter {
    let v = Json::Object(vec![
        ("kind".to_string(), Json::Str("regex".to_string())),
        ("tag".to_string(), Json::Str(tag_name.to_string())),
        ("regex".to_string(), Json::Str(pattern.to_string())),
    ]);
    RegexFilter::from_json(&v).unwrap()
}

fn song(path: &str, tags: &[(&str, &str)]) -> Song {
    let pairs = tags.iter().map(|(t, v)| (tag(t), v.to_string())).collect();
    Song { path: path.to_string(), metadata: Metadata::from_pairs(pairs) }
}

fn field<'a>(r: &'a Response, key: &str) -> Option<&'a Json> {
    r.inner().iter().find(|(k, _)| k == key).map(|(_, v)| v)
}

fn text(j: &Json) -> &str {
    match j {
        Json::Str(s) => s.as_str(),
        other => panic!("not a string: {:?}", other),
    }
}

fn items(j: &Json) -> &Vec<Json> {
    match j {
        Json::Array(v) => v,
        other => panic!("not an array: {:?}", other),
    }
}

fn get<'a>(j: &'a Json, key: &str) -> Option<&'a Json> {
    match j {
        Json::Object(f) => f.iter().find(|(k, _)| k == key).map(|(_, v)| v),
        other => panic!("not an object: {:?}", other),
    }
}

fn status(r: &Response) -> &str {
    text(field(r, "status").unwrap())
}

fn library() -> Database {
    let songs = vec![
        song("/music/b/2.mp3", &[("artist", "Bee"), ("album", "Two"), ("tracknumber", "2")]),
        song("/music/a/1.mp3", &[("artist", "Ace"), ("album", "One"), ("tracknumber", "1")]),
        song("/music/b/1.mp3", &[("artist", "Bee"), ("album", "Two"), ("tracknumber", "1")]),
        song("/music/a-side.mp3", &[("artist", "Ace")]),
    ];
    Database::new("/music".into(), "/music/playlists".into(), songs, vec!["/music/playlists/p.m3u".into()])
}

fn paths(db: &Database) -> Vec<String> {
    let r = db.ls(LsArgs("/".into()), Ok(false));
    assert_eq!(status(&r), "ok");
    let _ = r;
    let mut out = Vec::new();
    for d in ["/music", "/music/a", "/music/b"] {
        let r = db.ls(LsArgs(d.into()), Ok(false));
        for p in items(field(&r, "paths").unwrap()) {
            out.push(text(p).to_string());
        }
    }
    out
}

#[test]
fn rows_are_sorted_with_the_separator_first() {
    let rows = to_data_rows(vec![
        song("/m/a-b", &[]),
        song("/m/a/b", &[]),
        song("/m/a", &[]),
    ]);
    let order: Vec<&str> = rows.iter().map(|r| r.song.path.as_str()).collect();
    assert_eq!(order, vec!["/m/a", "/m/a/b", "/m/a-b"]);
    assert!(rows.iter().all(|r| !r.pending_delete));
}

#[test]
fn binary_search_finds_the_last_row_of_a_path() {
    let rows = to_data_rows(vec![song("/m/a", &[]), song("/m/b", &[]), song("/m/b", &[]), song("/m/c", &[])]);
    assert_eq!(binary_search_by_path(&rows, "/m/a"), Some(0));
    assert_eq!(binary_search_by_path(&rows, "/m/b"), Some(2));
    assert_eq!(binary_search_by_path(&rows, "/m/c"), Some(3));
    assert_eq!(binary_search_by_path(&rows, "/m/bb"), None);
    assert_eq!(binary_search_by_path(&rows, "/a"), None);
    let one = to_data_rows(vec![song("/x", &[])]);
    assert_eq!(binary_search_by_path(&one, "/x"), Some(0));
    assert_eq!(binary_search_by_path(&one, "/y"), None);
}

#[test]
fn paths_are_made_absolute_from_the_music_dir() {
    let db = library();
    assert_eq!(db.try_to_abs_path("a/1.mp3"), Some("/music/a/1.mp3".to_string()));
    assert_eq!(db.try_to_abs_path("/music/b/2.mp3"), Some("/music/b/2.mp3".to_string()));
    assert_eq!(db.try_to_abs_path("a/3.mp3"), None);
    assert_eq!(db.playlist_path("p.m3u"), "/music/playlists/p.m3u");
    assert_eq!(db.playlist_path("/tmp/q.m3u"), "/tmp/q.m3u");
    assert_eq!(Database::playlist_dir_for("/music", None), "/music/playlists");
    assert_eq!(Database::playlist_dir_for("/music", Some("/pl".into())), "/pl");
}

#[test]
fn ls_lists_a_directory_or_a_file() {
    let db = library();
    let r = db.ls(LsArgs("a".into()), Ok(false));
    assert_eq!(status(&r), "ok");
    let listed: Vec<&str> = items(field(&r, "paths").unwrap()).iter().map(text).collect();
    assert_eq!(listed, vec!["/music/a/1.mp3"]);

    let r = db.ls(LsArgs("/music/b/".into()), Ok(false));
    let listed: Vec<&str> = items(field(&r, "paths").unwrap()).iter().map(text).collect();
    assert_eq!(listed, vec!["/music/b/1.mp3", "/music/b/2.mp3"]);

    let r = db.ls(LsArgs("b/2.mp3".into()), Ok(true));
    let listed: Vec<&str> = items(field(&r, "paths").unwrap()).iter().map(text).collect();
    assert_eq!(listed, vec!["/music/b/2.mp3"]);

    let r = db.ls(LsArgs("b/9.mp3".into()), Ok(true));
    assert!(items(field(&r, "paths").unwrap()).is_empty());

    let r = db.ls(LsArgs("nowhere".into()), Err("No such file or directory (os error 2)".into()));
    assert_eq!(status(&r), "err");
    assert_eq!(text(field(&r, "reason").unwrap()), "No such file or directory (os error 2)");
}

#[test]
fn metadata_reports_tags_or_null() {
    let db = library();
    let r = db.metadata(MetadataArgs(
        vec!["a/1.mp3".into(), "missing.mp3".into(), "/music/a-side.mp3".into()],
        vec![tag("artist"), tag("album")],
    ));
    assert_eq!(status(&r), "ok");
    let m = items(field(&r, "metadata").unwrap());
    assert_eq!(m.len(), 3);
    assert_eq!(text(get(&m[0], "artist").unwrap()), "Ace");
    assert_eq!(text(get(&m[0], "album").unwrap()), "One");
    assert!(matches!(m[1], Json::Null));
    assert_eq!(text(get(&m[2], "artist").unwrap()), "Ace");
    assert!(matches!(get(&m[2], "album"), Some(Json::Null)));
}

#[test]
fn select_filters_sorts_and_groups() {
    let db = library();
    let filters = FilterExpr(vec![regex_filter("artist", "^B")]);
    let comparators = vec![Comparator { tag: tag("tracknumber"), order: ComparisonOrder::Descending }];
    let r = db.select(SelectArgs(vec![tag("tracknumber")], filters, vec![tag("album")], comparators));
    assert_eq!(status(&r), "ok");
    let groups = items(field(&r, "values").unwrap());
    assert_eq!(groups.len(), 1);
    assert_eq!(text(get(&groups[0], "album").unwrap()), "Two");
    let data = items(get(&groups[0], "data").unwrap());
    assert_eq!(data.len(), 2);
    let first = items(&data[0]);
    assert_eq!(text(&first[0]), "2");
    assert_eq!(text(&first[1]), "/music/b/2.mp3");
    let second = items(&data[1]);
    assert_eq!(text(&second[0]), "1");
    assert_eq!(text(&second[1]), "/music/b/1.mp3");
}

#[test]
fn select_groups_songs_without_the_tag_under_null() {
    let db = library();
    let r = db.select(SelectArgs(vec![], FilterExpr(vec![]), vec![tag("album")], vec![]));
    let groups = items(field(&r, "values").unwrap());
    assert_eq!(groups.len(), 3);
    let total: usize = groups.iter().map(|g| items(get(g, "data").unwrap()).len()).sum();
    assert_eq!(total, 4);
    assert!(groups.iter().any(|g| matches!(get(g, "album"), Some(Json::Null))));
}

#[test]
fn update_drops_unreadable_songs_and_merges_new_ones() {
    let mut db = library();
    assert_eq!(db.song_count(), 4);
    // rows in path order: /music/a/1.mp3, /music/a-side.mp3, /music/b/1.mp3, /music/b/2.mp3
    let checks = vec![
        RowCheck::Unchanged,
        RowCheck::Unreadable,
        RowCheck::Modified(Metadata::from_pairs(vec![(tag("artist"), "Bea".into())])),
        RowCheck::Unchanged,
    ];
    let added = vec![song("/music/c.mp3", &[]), song("/music/a/0.mp3", &[])];
    let r = db.apply_update(checks, added, 3, vec![]);
    assert_eq!(status(&r), "ok");
    assert!(matches!(field(&r, "added_songs"), Some(Json::Number(Number::PosInt(3)))));
    assert!(matches!(field(&r, "removed_songs"), Some(Json::Number(Number::PosInt(1)))));
    assert_eq!(db.song_count(), 5);
    assert_eq!(paths(&db), vec!["/music/c.mp3", "/music/a/0.mp3", "/music/a/1.mp3", "/music/b/1.mp3", "/music/b/2.mp3"]);
    assert_eq!(db.try_to_abs_path("a-side.mp3"), None);
    let r = db.metadata(MetadataArgs(vec!["b/1.mp3".into()], vec![tag("artist"), tag("album")]));
    let m = items(field(&r, "metadata").unwrap());
    assert_eq!(text(get(&m[0], "artist").unwrap()), "Bea");
    assert!(matches!(get(&m[0], "album"), Some(Json::Null)));
    assert!(db.playlists().is_empty());
}

#[test]
fn update_answer_counts() {
    let r = update_response(7, 2);
    assert_eq!(r.inner().len(), 3);
    assert!(matches!(field(&r, "added_songs"), Some(Json::Number(Number::PosInt(7)))));
    assert!(matches!(field(&r, "removed_songs"), Some(Json::Number(Number::PosInt(2)))));
}

#[test]
fn playlist_lines_are_relative_to_the_music_dir() {
    let db = library();
    assert!(db.songs_under_music_dir());
    assert_eq!(db.playlist_entry("a/1.mp3"), Ok("a/1.mp3".to_string()));
    assert_eq!(db.playlist_entry("/music/b/2.mp3"), Ok("b/2.mp3".to_string()));
    assert_eq!(db.playlist_entry("zzz.mp3"), Err("song `zzz.mp3` not found in the database".to_string()));
    let entries: Vec<Entry> = vec![(1, "/music/a/1.mp3".into()).into(), (2, "/music/b/2.mp3".into()).into()];
    assert_eq!(db.playlist_text_of(&entries), "a/1.mp3\nb/2.mp3\n");
    assert_eq!(db.playlist_text_of(&[]), "");
}

#[test]
fn ignore_file_lines_become_absolute_dirs() {
    assert_eq!(ignored_dirs_of("/music", "bad_dir\n/abs\r\nx/y"), vec!["/music/bad_dir", "/abs", "/music/x/y"]);
    assert!(ignored_dirs_of("/music", "").is_empty());
}

#[test]
fn update_keeps_a_changed_file_once() {
    let mut db = library();
    let checks = vec![
        RowCheck::Unchanged,
        RowCheck::Unchanged,
        RowCheck::Modified(Metadata::from_pairs(vec![(tag("artist"), "Bea".into())])),
        RowCheck::Unchanged,
    ];
    // the changed file is found again by the walk, next to a new one
    let added = vec![song("/music/b/1.mp3", &[("artist", "Bea")]), song("/music/d.mp3", &[])];
    let r = db.apply_update(checks, added, 2, vec!["/p/x.m3u".into(), "/p/x.m3u".into()]);
    assert_eq!(status(&r), "ok");
    assert_eq!(db.song_count(), 5);
    let p = paths(&db);
    assert_eq!(p.iter().filter(|x| x.as_str() == "/music/b/1.mp3").count(), 1);
    assert_eq!(p, vec!["/music/a-side.mp3", "/music/d.mp3", "/music/a/1.mp3", "/music/b/1.mp3", "/music/b/2.mp3"]);
    assert_eq!(db.playlists(), &vec!["/p/x.m3u".to_string()]);
}

#[test]
fn songs_sharing_a_path_are_kept_once() {
    let songs = vec![song("/music/x.mp3", &[("artist", "A")]), song("/music/x.mp3", &[("artist", "B")]), song("/music/y.mp3", &[])];
    let db = Database::new("/music".into(), "/music/p".into(), songs, vec![]);
    assert_eq!(db.song_count(), 2);
    let mut db = library();
    let checks = vec![RowCheck::Unchanged, RowCheck::Unchanged, RowCheck::Unchanged, RowCheck::Unchanged];
    let added = vec![song("/music/e.mp3", &[]), song("/music/e.mp3", &[])];
    db.apply_update(checks, added, 2, vec![]);
    assert_eq!(db.song_count(), 5);
}
