use musing::database::Database;
use musing::model::comparator::{Comparator, ComparisonOrder};
use musing::model::filter::{FilterExpr, RegexFilter};
use musing::model::json::Json;
use musing::model::playlist::{remove_line, songs_of_playlist};
use musing::model::queue::Entry;
use musing::model::request::SelectArgs;
use musing::model::song::{Metadata, Song};
use musing::model::tag_key::TagKey;
use musing::text::lines;

fn tag(name: &str) -> TagKey {
    TagKey::try_from_name(name).unwrap()
}

fn regex_filter(tag_name: &str, pattern: &str) -> RegexFilter {
    let v = Json::Object(vec![
        ("kind".to_string(), Json::Str("regex".to_string())),
        ("tag".to_string(), Json::Str(tag_name.to_string())),
        ("regex".to_string(), Json::Str(pattern.to_string())),
    ]);
    RegexFilter::from_json(&v).unwrap()
}

#[test]
fn removing_a_line_keeps_the_others_in_order() {
    let content = "#EXTM3U\na.mp3\r\nb.mp3\nc.mp3";
    for pos in 0..5 {
        let mut expected = lines(content);
        if pos < expected.len() {
            expected.remove(pos);
        }
        assert_eq!(lines(&remove_line(content, pos)), expected);
    }
    // with no line left, one empty line is written
    assert_eq!(lines(&remove_line("a\n", 0)), vec![""]);
}

#[test]
fn a_saved_queue_reads_back() {
    let songs = vec![
        Song { path: "/music/x/1.mp3".into(), metadata: Metadata::new() },
        Song { path: "/music/2.mp3".into(), metadata: Metadata::new() },
    ];
    let db = Database::new("/music".into(), "/music/playlists".into(), songs, vec![]);
    let entries: Vec<Entry> = vec![(5, "/music/x/1.mp3".into()).into(), (2, "/music/2.mp3".into()).into()];
    let text = db.playlist_text_of(&entries);
    assert_eq!(songs_of_playlist(&text), vec!["x/1.mp3", "2.mp3"]);
}

#[test]
fn filters_match_the_ascii_transliteration() {
    let songs = vec![
        Song { path: "/m/1.mp3".into(), metadata: Metadata::from_pairs(vec![(tag("artist"), "Beyoncé".into())]) },
        Song { path: "/m/2.mp3".into(), metadata: Metadata::from_pairs(vec![(tag("artist"), "Björk".into())]) },
    ];
    let db = Database::new("/m".into(), "/m/p".into(), songs, vec![]);
    let filter = FilterExpr(vec![regex_filter("artist", "^Beyonce$")]);
    let r = db.select(SelectArgs(vec![], filter, vec![], vec![]));
    let values = r.inner().iter().find(|(k, _)| k == "values").map(|(_, v)| v).unwrap();
    match values {
        Json::Array(groups) => match &groups[0] {
            Json::Object(f) => match &f.iter().find(|(k, _)| k == "data").unwrap().1 {
                Json::Array(rows) => assert_eq!(rows.len(), 1),
                other => panic!("{:?}", other),
            },
            other => panic!("{:?}", other),
        },
        other => panic!("{:?}", other),
    }
    let broken = Json::Object(vec![
        ("kind".to_string(), Json::Str("regex".to_string())),
        ("tag".to_string(), Json::Str("artist".to_string())),
        ("regex".to_string(), Json::Str("(".to_string())),
    ]);
    assert!(RegexFilter::from_json(&broken).is_err());
    let bjork = Song { path: "/m/2.mp3".into(), metadata: Metadata::from_pairs(vec![(tag("artist"), "Björk".into())]) };
    assert!(regex_filter("artist", "b.ork").matches(&bjork) == false);
    assert!(regex_filter("artist", "B.ork").matches(&bjork));
    assert!(!regex_filter("artist", "^x").matches(&bjork));
    assert!(!regex_filter("album", "B").matches(&bjork));
}

#[test]
fn sorting_by_a_text_tag_ascending() {
    let songs = vec![
        Song { path: "/m/1.mp3".into(), metadata: Metadata::from_pairs(vec![(tag("tracktitle"), "b".into())]) },
        Song { path: "/m/2.mp3".into(), metadata: Metadata::from_pairs(vec![(tag("tracktitle"), "a".into())]) },
        Song { path: "/m/3.mp3".into(), metadata: Metadata::new() },
    ];
    let db = Database::new("/m".into(), "/m/p".into(), songs, vec![]);
    let comparators = vec![Comparator { tag: tag("tracktitle"), order: ComparisonOrder::Ascending }];
    let r = db.select(SelectArgs(vec![], FilterExpr(vec![]), vec![], comparators));
    let values = &r.inner().iter().find(|(k, _)| k == "values").unwrap().1;
    let rows = match values {
        Json::Array(groups) => match &groups[0] {
            Json::Object(f) => match &f.iter().find(|(k, _)| k == "data").unwrap().1 {
                Json::Array(rows) => rows.clone_paths(),
                other => panic!("{:?}", other),
            },
            other => panic!("{:?}", other),
        },
        other => panic!("{:?}", other),
    };
    // a song without the tag comes first
    assert_eq!(rows, vec!["/m/3.mp3", "/m/2.mp3", "/m/1.mp3"]);
}

trait ClonePaths {
    fn clone_paths(&self) -> Vec<String>;
}

impl ClonePaths for Vec<Json> {
    fn clone_paths(&self) -> Vec<String> {
        self.iter()
            .map(|row| match row {
                Json::Array(cells) => match cells.last() {
                    Some(Json::Str(s)) => s.clone(),
                    other => panic!("{:?}", other),
                },
                other => panic!("{:?}", other),
            })
            .collect()
    }
}
