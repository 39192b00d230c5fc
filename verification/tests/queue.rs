use musing::model::queue::{Entry, Queue};

#[test]
fn add_and_remove() {
    let mut queue = Queue::default();
    queue.add("a".into(), None);
    queue.add("b".into(), Some(0));
    queue.add("c".into(), None);
    queue.add("d".into(), Some(2));
    let expected: &[Entry] = &[
        (2, "b".into()).into(),
        (1, "a".into()).into(),
        (4, "d".into()).into(),
        (3, "c".into()).into(),
    ];
    assert_eq!(queue.inner(), expected);

    queue.remove(4);
    queue.remove(2137);
    queue.add("e".into(), None);
    queue.remove(2);
    queue.add("f".into(), Some(1));
    let expected: &[Entry] = &[
        (1, "a".into()).into(),
        (6, "f".into()).into(),
        (3, "c".into()).into(),
        (5, "e".into()).into(),
    ];
    assert_eq!(queue.inner(), expected);
}

#[test]
fn traversing() {
    let mut queue = Queue::default();
    let n = 5;
    for i in 1..=n {
        queue.add(format!("song{}", i), None);
    }

    queue.move_next();
    queue.move_next();
    assert_eq!(queue.current(), Some((2, "song2".into()).into()).as_ref());
    queue.move_next();
    queue.move_prev();
    assert_eq!(queue.current(), Some((2, "song2".into()).into()).as_ref());
    queue.move_next();
    queue.move_next();
    assert_eq!(queue.current(), Some((4, "song4".into()).into()).as_ref());
    queue.move_next();
    queue.move_next();
    assert_eq!(queue.current(), None);
    queue.move_prev();
    assert_eq!(queue.current(), Some((5, "song5".into()).into()).as_ref());
    queue.move_next();
    queue.move_next();
    assert_eq!(queue.current(), Some((1, "song1".into()).into()).as_ref());
}

#[test]
fn removing_what_was_added_gives_the_list_back() {
    let mut queue = Queue::default();
    queue.add("a".into(), None);
    queue.add("b".into(), None);
    let before: Vec<Entry> = queue.inner().to_vec();
    queue.add("c".into(), Some(1));
    queue.remove(3);
    assert_eq!(queue.inner(), &before[..]);
}

#[test]
fn next_then_previous_comes_back() {
    let mut queue = Queue::default();
    for p in ["a", "b", "c"] {
        queue.add(p.into(), None);
    }
    queue.move_to(2);
    queue.move_next();
    assert_eq!(queue.current().unwrap().id, 3);
    queue.move_prev();
    assert_eq!(queue.current().unwrap().id, 2);
}

#[test]
fn random_mode_plays_every_song_once() {
    let mut queue = Queue::default();
    for p in ["a", "b", "c", "d", "e"] {
        queue.add(p.into(), None);
    }
    queue.start_random();
    let mut seen = Vec::new();
    for _ in 0..5 {
        let e = queue.move_next().unwrap();
        seen.push(e.id);
    }
    seen.sort();
    assert_eq!(seen, vec![1, 2, 3, 4, 5]);
}

#[test]
fn a_saved_queue_is_restored() {
    let mut queue = Queue::default();
    for p in ["a", "b", "c"] {
        queue.add(p.into(), None);
    }
    queue.move_to(2);
    queue.add_current_to_history();
    queue.remove(1);
    let restored = Queue::restore(queue.inner().to_vec(), queue.mode_of(), queue.played_ids(), queue.last_id_value()).unwrap();
    assert_eq!(restored.inner(), queue.inner());
    assert_eq!(restored.last_id_value(), 3);
    assert_eq!(restored.played_ids(), vec![2]);
    assert!(restored.current().is_none());
    let dup: Vec<Entry> = vec![(1, "a".into()).into(), (1, "b".into()).into()];
    assert!(Queue::restore(dup, queue.mode_of(), vec![], 3).is_none());
    let high: Vec<Entry> = vec![(4, "a".into()).into()];
    assert!(Queue::restore(high, queue.mode_of(), vec![], 3).is_none());
}

#[test]
fn clearing_in_random_mode_leaves_no_stale_ids() {
    let mut queue = Queue::default();
    queue.add("a".into(), None);
    queue.add("b".into(), None);
    queue.add("c".into(), None);
    queue.start_random();
    queue.clear();
    queue.add("x".into(), None);
    assert_eq!(queue.mode(), "random");
    let first = queue.move_next().map(|e| e.path.clone());
    assert_eq!(first.as_deref(), Some("x"));
    // the pool is refilled from the whole queue once it is played out
    assert_eq!(queue.move_next().map(|e| e.path.clone()).as_deref(), Some("x"));
}

#[test]
fn a_song_played_by_id_is_not_picked_again_in_the_round() {
    let mut queue = Queue::default();
    for p in ["a", "b", "c", "d"] {
        queue.add(p.into(), None);
    }
    queue.start_random();
    let picked = queue.move_to(3).map(|e| e.id);
    assert_eq!(picked, Some(3));
    let mut ids = Vec::new();
    for _ in 0..3 {
        ids.push(queue.move_next().unwrap().id);
    }
    ids.sort();
    assert_eq!(ids, vec![1, 2, 4]);
}

#[test]
fn adding_before_the_current_entry_keeps_it_current() {
    let mut queue = Queue::default();
    queue.add("a".into(), None);
    queue.add("b".into(), None);
    queue.move_to(2);
    queue.add("c".into(), Some(0));
    assert_eq!(queue.current().map(|e| e.path.clone()).as_deref(), Some("b"));
    queue.add("d".into(), Some(2));
    assert_eq!(queue.current().map(|e| e.path.clone()).as_deref(), Some("b"));
    queue.add("e".into(), Some(3));
    assert_eq!(queue.current().map(|e| e.path.clone()).as_deref(), Some("b"));
}
