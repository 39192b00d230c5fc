use musing::database::Database;
use musing::model::decoder::{PlaybackTimer, Speed, Volume};
use musing::model::json::{Json, Number};
use musing::model::request::{AddToQueueArgs, PlayArgs, QueueRequestKind, RemoveFromQueueArgs, StatusRequestKind};
use musing::model::response::Response;
use musing::model::song::{Metadata, Song};
use musing::playback::{AudioStatus, PlaybackState};
use musing::player::{add_to_queue, step_to_playable, AudioCommand, Player};

fn song(path: &str) -> Song {
    Song { path: path.to_string(), metadata: Metadata::new() }
}

fn player() -> Player {
    let songs = vec![song("/m/a.mp3"), song("/m/b.mp3"), song("/m/c.mp3"), song("/m/d.mp3")];
    Player::new(None, Database::new("/m".into(), "/m/playlists".into(), songs, vec!["/m/playlists/x.m3u".into()]))
}

fn field<'a>(r: &'a Response, key: &str) -> Option<&'a Json> {
    r.inner().iter().find(|(k, _)| k == key).map(|(_, v)| v)
}

fn reason(r: &Response) -> Option<String> {
    match field(r, "reason") {
        Some(Json::Str(s)) => Some(s.clone()),
        _ => None,
    }
}

fn queue(p: &Player) -> Vec<(u32, String)> {
    p.queue.inner().iter().map(|e| (e.id, e.path.clone())).collect()
}

fn status(p: &Player) -> AudioStatus {
    AudioStatus { gapless: true, state: PlaybackState::Paused, speed: Speed::from(150), volume: Volume::from(60), timer: None }
}

#[test]
fn adding_reports_missing_files() {
    let mut p = player();
    let (r, c) = p.queue_request(QueueRequestKind::AddToQueue(AddToQueueArgs(
        vec!["a.mp3".into(), "nope.mp3".into(), "/m/c.mp3".into(), "gone.mp3".into()],
        None,
    )));
    assert!(matches!(c, AudioCommand::Nothing));
    assert_eq!(reason(&r), Some("file(s) `nope.mp3,gone.mp3` not found in the database".into()));
    assert_eq!(queue(&p), vec![(1, "/m/a.mp3".into()), (2, "/m/c.mp3".into())]);
    let (r, _) = p.queue_request(QueueRequestKind::AddToQueue(AddToQueueArgs(vec!["b.mp3".into()], Some(1))));
    assert_eq!(reason(&r), None);
    assert_eq!(queue(&p), vec![(1, "/m/a.mp3".into()), (3, "/m/b.mp3".into()), (2, "/m/c.mp3".into())]);
}

#[test]
fn loading_a_range_at_a_position() {
    let mut p = player();
    p.queue_request(QueueRequestKind::AddToQueue(AddToQueueArgs(vec!["a.mp3".into(), "b.mp3".into()], None)));
    let songs: Vec<String> = vec!["c.mp3".into(), "x.mp3".into(), "d.mp3".into(), "a.mp3".into()];
    let r = p.load(&songs, Some((1, 2)), Some(1));
    assert_eq!(reason(&r), Some("song(s) `x.mp3` not found in the database".into()));
    // x.mp3 would have gone to 1, d.mp3 goes to 1 + 1
    assert_eq!(queue(&p), vec![(1, "/m/a.mp3".into()), (2, "/m/b.mp3".into()), (3, "/m/d.mp3".into())]);
    let r = p.load(&songs, Some((7, 0)), None);
    assert_eq!(reason(&r), None);
    assert_eq!(p.queue.inner().last().unwrap().path, "/m/a.mp3");
}

#[test]
fn add_to_queue_clamps_the_range() {
    let mut p = player();
    let paths: Vec<String> = vec!["a.mp3".into(), "b.mp3".into(), "c.mp3".into()];
    let missing = add_to_queue(&p.database, &mut p.queue, &paths, Some((1, 99)), None);
    assert!(missing.is_empty());
    assert_eq!(queue(&p), vec![(1, "/m/b.mp3".into()), (2, "/m/c.mp3".into())]);
}

#[test]
fn playing_and_removing() {
    let mut p = player();
    p.queue_request(QueueRequestKind::AddToQueue(AddToQueueArgs(vec!["a.mp3".into(), "b.mp3".into()], None)));
    let (r, c) = p.queue_request(QueueRequestKind::Play(PlayArgs(2)));
    assert_eq!(reason(&r), None);
    assert!(matches!(c, AudioCommand::Play(ref path) if path == "/m/b.mp3"));
    assert_eq!(p.queue.current().unwrap().id, 2);
    let (r, c) = p.queue_request(QueueRequestKind::Play(PlayArgs(9)));
    assert_eq!(reason(&r), Some("song with queue id `9` not found".into()));
    assert!(matches!(c, AudioCommand::Nothing));
    let (_, c) = p.queue_request(QueueRequestKind::RemoveFromQueue(RemoveFromQueueArgs(vec![1])));
    assert!(matches!(c, AudioCommand::Nothing));
    let (_, c) = p.queue_request(QueueRequestKind::RemoveFromQueue(RemoveFromQueueArgs(vec![7, 2])));
    assert!(matches!(c, AudioCommand::Stop));
    assert!(p.queue.inner().is_empty());
    let (_, c) = p.queue_request(QueueRequestKind::Next);
    assert!(matches!(c, AudioCommand::PlayNext));
    let (_, c) = p.queue_request(QueueRequestKind::Previous);
    assert!(matches!(c, AudioCommand::PlayPrevious));
}

#[test]
fn a_failed_play_forgets_the_position() {
    let mut p = player();
    p.queue_request(QueueRequestKind::AddToQueue(AddToQueueArgs(vec!["a.mp3".into()], None)));
    p.queue_request(QueueRequestKind::Play(PlayArgs(1)));
    let r = p.play_failed("playback error (all audio devices are disabled)".into());
    assert_eq!(reason(&r), Some("playback error (all audio devices are disabled)".into()));
    assert!(p.queue.current().is_none());
    assert_eq!(p.queue.inner().len(), 1);
}

#[test]
fn modes_and_clearing() {
    let mut p = player();
    p.queue_request(QueueRequestKind::AddToQueue(AddToQueueArgs(vec!["a.mp3".into(), "b.mp3".into()], None)));
    p.queue_request(QueueRequestKind::Random);
    assert_eq!(p.queue.mode(), "random");
    p.queue_request(QueueRequestKind::Single);
    assert_eq!(p.queue.mode(), "single");
    p.queue_request(QueueRequestKind::Sequential);
    assert_eq!(p.queue.mode(), "sequential");
    let (r, c) = p.queue_request(QueueRequestKind::Clear);
    assert_eq!(reason(&r), None);
    assert!(matches!(c, AudioCommand::Stop));
    assert!(p.queue.inner().is_empty());
    p.queue_request(QueueRequestKind::AddToQueue(AddToQueueArgs(vec!["c.mp3".into()], None)));
    assert_eq!(queue(&p), vec![(1, "/m/c.mp3".into())]);
}

#[test]
fn status_reports() {
    let mut p = player();
    p.queue_request(QueueRequestKind::AddToQueue(AddToQueueArgs(vec!["a.mp3".into(), "b.mp3".into()], None)));
    let r = p.status_request(StatusRequestKind::Queue, &status(&p));
    match field(&r, "queue") {
        Some(Json::Array(items)) => {
            assert_eq!(items.len(), 2);
            assert!(matches!(&items[1], Json::Object(f) if f[0].0 == "id" && matches!(f[0].1, Json::Number(Number::PosInt(2)))));
        }
        other => panic!("{:?}", other),
    }
    let r = p.status_request(StatusRequestKind::Playlists, &status(&p));
    assert!(matches!(field(&r, "playlists"), Some(Json::Array(v)) if v.len() == 1));
    let r = p.status_request(StatusRequestKind::State, &status(&p));
    let keys: Vec<&str> = r.inner().iter().map(|(k, _)| k.as_str()).collect();
    assert_eq!(keys, vec!["status", "gapless", "mode", "state", "speed", "volume"]);
    assert!(matches!(field(&r, "state"), Some(Json::Str(s)) if s == "paused"));
    assert!(matches!(field(&r, "speed"), Some(Json::Number(Number::PosInt(150)))));
    p.queue_request(QueueRequestKind::Play(PlayArgs(1)));
    let mut audio = status(&p);
    audio.timer = Some(PlaybackTimer { elapsed: 10, duration: 200 });
    let r = p.status_request(StatusRequestKind::State, &audio);
    let keys: Vec<&str> = r.inner().iter().map(|(k, _)| k.as_str()).collect();
    assert_eq!(keys, vec!["status", "gapless", "mode", "state", "speed", "volume", "elapsed", "duration", "id", "path"]);
    let d = r.diff_with(&p.status_request(StatusRequestKind::State, &status(&p)));
    let keys: Vec<&str> = d.inner().iter().map(|(k, _)| k.as_str()).collect();
    assert_eq!(keys, vec!["elapsed", "duration"]);
}

#[test]
fn state_keeps_the_queue_without_its_position() {
    let mut p = player();
    p.queue_request(QueueRequestKind::AddToQueue(AddToQueueArgs(vec!["a.mp3".into(), "b.mp3".into()], None)));
    p.queue_request(QueueRequestKind::Play(PlayArgs(2)));
    let s = p.state(&status(&p));
    assert_eq!(s.audio_state.volume.get(), 60);
    assert_eq!(s.audio_state.speed.get(), 150);
    assert!(s.audio_state.gapless);
    assert!(s.player_state.queue.current().is_none());
    assert_eq!(s.player_state.queue.inner(), p.queue.inner());
    assert!(p.queue.current().is_some());
    let restored = Player::new(Some(s.player_state), Database::new("/m".into(), "/m/p".into(), vec![], vec![]));
    assert_eq!(restored.queue.inner().len(), 2);
}

#[test]
fn adding_an_empty_list_adds_nothing() {
    let mut p = player();
    let (r, cmd) = p.queue_request(QueueRequestKind::AddToQueue(AddToQueueArgs(vec![], Some(3))));
    assert!(matches!(field(&r, "status"), Some(Json::Str(s)) if s == "ok"));
    assert!(matches!(cmd, AudioCommand::Nothing));
    assert!(queue(&p).is_empty());
    let empty = Database::new("/m".into(), "/m/p".into(), vec![], vec![]);
    let mut q = p.queue;
    assert!(add_to_queue(&empty, &mut q, &vec![], None, None).is_empty());
    assert!(q.inner().is_empty());
}

#[test]
fn the_search_for_a_playable_song_gives_up() {
    let mut p = player();
    let _ = p.queue_request(QueueRequestKind::AddToQueue(AddToQueueArgs(vec!["a.mp3".into(), "b.mp3".into()], None)));
    let _ = p.queue_request(QueueRequestKind::Random);
    let mut tried = 0;
    let mut failed = 0;
    loop {
        match step_to_playable(&mut p.queue, true, failed) {
            AudioCommand::Play(_) => {
                tried += 1;
                failed += 1;
            }
            AudioCommand::Stop => break,
            other => panic!("{:?}", other),
        }
    }
    assert_eq!(tried, 2);
    assert!(p.queue.current().is_none());
}
