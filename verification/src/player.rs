use vstd::prelude::*;
use vstd::string::StringExecFns;

use crate::database::{abs_path, has_path, str_array, Database};
use crate::model::json::{items_view, lemma_array_view, lemma_object_view, fields_view, Json, JsonView, Number};
use crate::model::queue::{
    first_index_of, list_after_add, list_after_remove, mode_after_add, mode_cleared, mode_name, mode_without,
    moved_next, not_played_ids, pos_after_remove, prev_pos, shuffle, Entry, ModeView, Queue,
};
use crate::model::response::{err_fields, insert_field, object_insert, ok_fields, Response};
use crate::model::decoder::{PlaybackTimer, Speed, Volume};
use crate::model::queue::QueueMode;
use crate::model::request::{AddToQueueArgs, PlayArgs, QueueRequestKind, RemoveFromQueueArgs, StatusRequestKind};
use crate::playback::{state_name, AudioStatus};
use crate::state::{AudioState, PlayerState, State};
use crate::text::{decimal, push_decimal, views_of};

verus! {

/// A queue entry as plain values: its id and its path.
pub open spec fn entry_views(s: Seq<Entry>) -> Seq<(u32, Seq<char>)> {
    Seq::new(s.len(), |i: int| (s[i].id, s[i].path@))
}

/// `x` put in `s` at `pos` when that is a valid index, else at the end.
pub open spec fn insert_or_push<A>(s: Seq<A>, x: A, pos: Option<usize>) -> Seq<A> {
    match pos {
        Some(p) => if p < s.len() {
            s.insert(p as int, x)
        } else {
            s.push(x)
        },
        None => s.push(x),
    }
}

proof fn lemma_entry_views_add(s: Seq<Entry>, e: Entry, pos: Option<usize>)
    ensures
        entry_views(list_after_add(s, e, pos)) == insert_or_push(entry_views(s), (e.id, e.path@), pos),
{
    assert(entry_views(list_after_add(s, e, pos)) =~= insert_or_push(entry_views(s), (e.id, e.path@), pos));
}

/// The positions, first and last (inclusive), of the songs of a list of `len` that
/// `range` selects: the first is capped at the last song, the last is kept between
/// the first and the last song; no range selects them all.
pub open spec fn selected_range(len: nat, range: Option<(usize, usize)>) -> (int, int) {
    match range {
        Some((s, e)) => {
            let start = if s < len - 1 { s as int } else { len - 1 };
            let end = if e < start { start } else if e > len - 1 { len - 1 } else { e as int };
            (start, end)
        },
        None => (0, len - 1),
    }
}

/// The songs of `paths` that `range` selects.
pub open spec fn selected(paths: Seq<Seq<char>>, range: Option<(usize, usize)>) -> Seq<Seq<char>> {
    if paths.len() == 0 {
        paths
    } else {
        let (start, end) = selected_range(paths.len(), range);
        paths.subrange(start, end + 1)
    }
}

/// The absolute path of the song at `p`, when the database holds it.
pub open spec fn lookup_song(db: &Database, p: Seq<char>) -> Option<Seq<char>> {
    if has_path(db.songs(), abs_path(db.music_dir(), p)) {
        Some(abs_path(db.music_dir(), p))
    } else {
        None
    }
}

/// The paths the database does not hold.
pub open spec fn missing_songs(db: &Database, paths: Seq<Seq<char>>) -> Seq<Seq<char>> {
    paths.filter(|p: Seq<char>| lookup_song(db, p) is None)
}

/// The queue's entries, mode and last id after the songs found at `found` (in
/// order; `None` for a song that was not found) are added from `pos` on: the song
/// at offset `k` goes to `pos + k`, or to the end without `pos`.
pub open spec fn after_adds(
    entries: Seq<(u32, Seq<char>)>,
    mode: ModeView,
    last: u32,
    found: Seq<Option<Seq<char>>>,
    pos: Option<usize>,
) -> (Seq<(u32, Seq<char>)>, ModeView, u32)
    decreases found.len(),
{
    if found.len() == 0 {
        (entries, mode, last)
    } else {
        let (e, m, l) = after_adds(entries, mode, last, found.drop_last(), pos);
        match found.last() {
            Some(p) => {
                let id = (l + 1) as u32;
                let at = match pos {
                    Some(q) => Some((q + found.len() - 1) as usize),
                    None => None,
                };
                (insert_or_push(e, (id, p), at), mode_after_add(m, id), id)
            },
            None => (e, m, l),
        }
    }
}


/// How many of the songs were found.
pub open spec fn found_count(found: Seq<Option<Seq<char>>>) -> nat
    decreases found.len(),
{
    if found.len() == 0 {
        0
    } else {
        found_count(found.drop_last()) + if found.last() is Some {
            1nat
        } else {
            0nat
        }
    }
}

/// Adding songs makes the queue longer by the number of songs found, and hands out
/// one new id per song found, each greater than the last one.
pub proof fn lemma_after_adds_grows(
    entries: Seq<(u32, Seq<char>)>,
    mode: ModeView,
    last: u32,
    found: Seq<Option<Seq<char>>>,
    pos: Option<usize>,
)
    requires
        last + found.len() <= u32::MAX,
    ensures
        after_adds(entries, mode, last, found, pos).0.len() == entries.len() + found_count(found),
        after_adds(entries, mode, last, found, pos).2 == last + found_count(found),
    decreases found.len(),
{
    if found.len() > 0 {
        lemma_after_adds_grows(entries, mode, last, found.drop_last(), pos);
        lemma_found_count_bound(found.drop_last());
    }
}

proof fn lemma_found_count_bound(found: Seq<Option<Seq<char>>>)
    ensures
        found_count(found) <= found.len(),
    decreases found.len(),
{
    if found.len() > 0 {
        lemma_found_count_bound(found.drop_last());
    }
}

/// The songs found in the database, path by path.
pub open spec fn found_songs(db: &Database, paths: Seq<Seq<char>>) -> Seq<Option<Seq<char>>> {
    Seq::new(paths.len(), |i: int| lookup_song(db, paths[i]))
}

/// Adds to the queue the songs of `paths` (relative to the music directory, or
/// absolute) that `range` selects and the database holds, from position `pos` on
/// (each song at `pos` plus its offset in the selection), or at the end; returns
/// the paths that were not found. An empty list adds nothing; a list that is not
/// empty needs a database that is not empty.
pub fn add_to_queue(
    database: &Database,
    queue: &mut Queue,
    paths: &Vec<String>,
    range: Option<(usize, usize)>,
    pos: Option<usize>,
) -> (not_found: Vec<String>)
    requires
        database.wf(),
        paths@.len() > 0 ==> database.songs().len() > 0,
        old(queue).wf(),
        old(queue).last_id() + paths@.len() <= u32::MAX,
        pos matches Some(p) ==> p + paths@.len() <= usize::MAX,
    ensures
        final(queue).wf(),
        ({
            let sel = selected(views_of(paths@), range);
            &&& (entry_views(final(queue).entries()), final(queue).mode_view(), final(queue).last_id())
                == after_adds(
                entry_views(old(queue).entries()),
                old(queue).mode_view(),
                old(queue).last_id(),
                found_songs(database, sel),
                pos,
            )
            &&& views_of(not_found@) == missing_songs(database, sel)
        }),
        final(queue).current_entry() == old(queue).current_entry(),
        final(queue).played() == old(queue).played(),
{
    let n = paths.len();
    if n == 0 {
        assert(found_songs(database, selected(views_of(paths@), range)) =~= Seq::<Option<Seq<char>>>::empty());
        assert(missing_songs(database, selected(views_of(paths@), range)) =~= Seq::<Seq<char>>::empty()) by {
            assert(selected(views_of(paths@), range) =~= Seq::<Seq<char>>::empty());
        }
        return Vec::new();
    }
    let (start, end) = match range {
        Some((s, e)) => {
            let start = if s < n - 1 {
                s
            } else {
                n - 1
            };
            let end = if e < start {
                start
            } else if e > n - 1 {
                n - 1
            } else {
                e
            };
            (start, end)
        },
        None => (0, n - 1),
    };
    let ghost all = views_of(paths@);
    let ghost sel = selected(all, range);
    assert(sel == all.subrange(start as int, end as int + 1));
    let ghost e0 = entry_views(queue.entries());
    let ghost m0 = queue.mode_view();
    let ghost l0 = queue.last_id();
    let ghost pred = |p: Seq<char>| lookup_song(database, p) is None;
    let mut not_found: Vec<String> = Vec::new();
    let mut i: usize = start;
    assert(sel.take(0) =~= Seq::<Seq<char>>::empty());
    assert(found_songs(database, sel.take(0)) =~= Seq::<Option<Seq<char>>>::empty());
    while i <= end
        invariant
            start <= i <= end + 1,
            end < n,
            n == paths@.len(),
            all == views_of(paths@),
            sel == all.subrange(start as int, end as int + 1),
            database.wf(),
            database.songs().len() > 0,
            queue.wf(),
            l0 + n <= u32::MAX,
            queue.last_id() <= l0 + (i - start),
            pos matches Some(p) ==> p + n <= usize::MAX,
            pred == (|p: Seq<char>| lookup_song(database, p) is None),
            (entry_views(queue.entries()), queue.mode_view(), queue.last_id()) == after_adds(
                e0,
                m0,
                l0,
                found_songs(database, sel.take(i - start)),
                pos,
            ),
            views_of(not_found@) == sel.take(i - start).filter(pred),
            queue.current_entry() == old(queue).current_entry(),
            queue.played() == old(queue).played(),
        decreases end + 1 - i,
    {
        let offset = i - start;
        let ghost k = offset as int;
        let ghost p = all[i as int];
        proof {
            assert(sel[k] == p);
            assert(sel.take(k + 1) =~= sel.take(k).push(p));
            assert(found_songs(database, sel.take(k + 1)).drop_last() =~= found_songs(database, sel.take(k)));
            assert(found_songs(database, sel.take(k + 1)).last() == lookup_song(database, p));
            sel.take(k).lemma_filter_push(p, pred);
        }
        match database.try_to_abs_path(paths[i].as_str()) {
            Some(abs) => {
                let ghost before = queue.entries();
                let at = match pos {
                    Some(q) => Some(q + offset),
                    None => None,
                };
                queue.add(abs, at);
                proof {
                    lemma_entry_views_add(before, Entry { id: queue.last_id(), path: abs }, at);
                }
            },
            None => {
                let ghost before = not_found@;
                not_found.push(paths[i].clone());
                assert(views_of(not_found@) =~= views_of(before).push(p));
            },
        }
        i = i + 1;
    }
    assert(sel.take(end + 1 - start) =~= sel);
    not_found
}

/// Texts joined with `,` between them.
pub open spec fn comma_joined(v: Seq<Seq<char>>) -> Seq<char>
    decreases v.len(),
{
    if v.len() == 0 {
        Seq::empty()
    } else if v.len() == 1 {
        v[0]
    } else {
        comma_joined(v.drop_last()) + seq![','] + v.last()
    }
}

/// Texts joined with `,` between them.
pub fn join_with_commas(v: &Vec<String>) -> (r: String)
    ensures
        r@ == comma_joined(views_of(v@)),
{
    let mut r = String::new();
    let mut i: usize = 0;
    let ghost all = views_of(v@);
    assert(all.take(0) =~= Seq::<Seq<char>>::empty());
    while i < v.len()
        invariant
            i <= v@.len(),
            all == views_of(v@),
            r@ == comma_joined(all.take(i as int)),
        decreases v@.len() - i,
    {
        let ghost r0 = r@;
        if i > 0 {
            crate::text::push_char(&mut r, ',');
        }
        r.append(v[i].as_str());
        proof {
            assert(all.take(i + 1).drop_last() =~= all.take(i as int));
            assert(all.take(i + 1).last() == all[i as int]);
            if i == 0 {
                assert(r@ =~= all[0]);
            } else {
                assert(r@ =~= r0 + seq![','] + all[i as int]);
            }
        }
        i = i + 1;
    }
    assert(all.take(v@.len() as int) =~= all);
    r
}

/// The answer to adding songs: `ok` when all were found, else the message naming
/// those that were not, after `prefix`.
pub open spec fn added_fields(prefix: Seq<char>, missing: Seq<Seq<char>>) -> Seq<(Seq<char>, JsonView)> {
    if missing.len() == 0 {
        ok_fields()
    } else {
        err_fields(prefix + "(s) `"@ + comma_joined(missing) + "` not found in the database"@)
    }
}

fn added_response(prefix: &str, missing: &Vec<String>) -> (r: Response)
    ensures
        r@ == added_fields(prefix@, views_of(missing@)),
{
    if missing.len() == 0 {
        Response::new_ok()
    } else {
        let mut m = String::from_str(prefix);
        m.append("(s) `");
        let joined = join_with_commas(missing);
        m.append(joined.as_str());
        m.append("` not found in the database");
        Response::new_err(m)
    }
}


/// What the audio side has to do after a request about the queue.
#[derive(Debug)]
pub enum AudioCommand {
    /// Nothing.
    Nothing,
    /// Stop the playback.
    Stop,
    /// Play the next songs of the queue, one after the other, until one plays; stop
    /// when none does.
    PlayNext,
    /// Play the previous songs of the queue, one after the other, until one plays;
    /// stop when none does.
    PlayPrevious,
    /// Play the song at this path; when that fails, forget the position and stop.
    Play(String),
}

/// The queue's entries, position and mode after the ids are removed one by one, and
/// whether one of them was the current entry.
pub open spec fn after_removes(e: Seq<Entry>, p: Option<usize>, m: ModeView, ids: Seq<u32>) -> (
    Seq<Entry>,
    Option<usize>,
    ModeView,
    bool,
)
    decreases ids.len(),
{
    if ids.len() == 0 {
        (e, p, m, false)
    } else {
        let (e1, p1, m1, hit) = after_removes(e, p, m, ids.drop_last());
        let id = ids.last();
        let f = first_index_of(e1, id);
        (list_after_remove(e1, f), pos_after_remove(p1, f), mode_without(m1, id), hit || (f is Some
            && p1 == f))
    }
}

/// The message for a queue id that no entry has.
pub open spec fn id_not_found(id: u32) -> Seq<char> {
    "song with queue id `"@ + decimal(id as nat) + "` not found"@
}

/// A queue entry as a JSON object: its id and its path.
pub open spec fn entry_object(e: Entry) -> JsonView {
    JsonView::Object(
        seq![("id"@, JsonView::Number(Number::PosInt(e.id as u64))), ("path"@, JsonView::Str(e.path@))],
    )
}

/// Sets one field after another.
pub open spec fn with_fields(f: Seq<(Seq<char>, JsonView)>, items: Seq<(Seq<char>, JsonView)>) -> Seq<
    (Seq<char>, JsonView),
>
    decreases items.len(),
{
    if items.len() == 0 {
        f
    } else {
        object_insert(with_fields(f, items.drop_last()), items.last().0, items.last().1)
    }
}

/// The fields that the `state` request reports, in order: `gapless`, `mode`,
/// `state`, `speed` and `volume`; `elapsed` and `duration` while a song plays;
/// `id` and `path` of the current entry, if any.
pub open spec fn state_items(q: &Queue, audio: AudioStatus) -> Seq<(Seq<char>, JsonView)> {
    let base = seq![
        ("gapless"@, JsonView::Bool(audio.gapless)),
        ("mode"@, JsonView::Str(mode_name(q.mode_view()))),
        ("state"@, JsonView::Str(state_name(audio.state))),
        ("speed"@, JsonView::Number(Number::PosInt(audio.speed.percent() as u64))),
        ("volume"@, JsonView::Number(Number::PosInt(audio.volume.level() as u64))),
    ];
    let with_timer = match audio.timer {
        Some(t) => base + seq![
            ("elapsed"@, JsonView::Number(Number::PosInt(t.elapsed))),
            ("duration"@, JsonView::Number(Number::PosInt(t.duration))),
        ],
        None => base,
    };
    match q.current_entry() {
        Some(e) => with_timer + seq![
            ("id"@, JsonView::Number(Number::PosInt(e.id as u64))),
            ("path"@, JsonView::Str(e.path@)),
        ],
        None => with_timer,
    }
}

/// One step of the search for a song that plays, after `failed` files of this
/// search did not play: the queue moves on (forwards as its mode decides, or back)
/// and the audio side is told to try the entry reached, or to stop when there is
/// none. Once as many files have failed as the queue holds entries, the search
/// gives up: no entry is current and playback stops. The audio side answers
/// whether the file played; when it did not, the next step follows.
pub fn step_to_playable(queue: &mut Queue, forwards: bool, failed: usize) -> (r: AudioCommand)
    requires
        old(queue).wf(),
    ensures
        final(queue).wf(),
        final(queue).entries() == old(queue).entries(),
        final(queue).played() == old(queue).played(),
        final(queue).last_id() == old(queue).last_id(),
        failed >= old(queue).entries().len() ==> {
            &&& r is Stop
            &&& final(queue).position() is None
            &&& final(queue).mode_view() == old(queue).mode_view()
        },
        failed < old(queue).entries().len() && forwards ==> moved_next(
            old(queue).entries(),
            old(queue).position(),
            old(queue).mode_view(),
            final(queue).position(),
            final(queue).mode_view(),
        ),
        failed < old(queue).entries().len() && !forwards ==> final(queue).position() == prev_pos(
            old(queue).position(),
            old(queue).entries().len(),
        ) && final(queue).mode_view() == old(queue).mode_view(),
        match r {
            AudioCommand::Play(p) => final(queue).current_entry() matches Some(e) && p@ == e.path@,
            AudioCommand::Stop => final(queue).current_entry() is None,
            _ => false,
        },
{
    if failed >= queue.inner().len() {
        queue.reset_pos();
        return AudioCommand::Stop;
    }
    let next = if forwards {
        queue.move_next()
    } else {
        queue.move_prev()
    };
    match next {
        Some(e) => AudioCommand::Play(e.path.clone()),
        None => AudioCommand::Stop,
    }
}

/// The player's music database and play queue.
#[derive(Debug)]
pub struct Player {
    pub database: Database,
    pub queue: Queue,
}

/// What a request about the queue needs to be carried out: songs to add need a
/// database that is not empty, and ids and positions left for every one of them.
pub open spec fn queue_request_allowed(p: &Player, req: &QueueRequestKind) -> bool {
    match req {
        QueueRequestKind::AddToQueue(AddToQueueArgs(paths, pos)) => {
            &&& paths@.len() > 0 ==> p.database.songs().len() > 0
            &&& p.queue.last_id() + paths@.len() <= u32::MAX
            &&& pos matches Some(q) ==> q + paths@.len() <= usize::MAX
        },
        _ => true,
    }
}

impl Player {
    /// The database is sorted and the queue well formed.
    pub open spec fn wf(&self) -> bool {
        self.database.wf() && self.queue.wf()
    }

    /// A player over `database`, with the queue kept from the previous run, if any.
    pub fn new(state: Option<PlayerState>, database: Database) -> (r: Player)
        requires
            database.wf(),
            state matches Some(s) ==> s.queue.wf(),
        ensures
            r.wf(),
            r.database == database,
            match state {
                Some(s) => r.queue == s.queue,
                None => r.queue.entries().len() == 0 && r.queue.position() is None && r.queue.mode_view()
                    == ModeView::Sequential,
            },
    {
        let queue = match state {
            Some(s) => s.queue,
            None => Queue::new(),
        };
        Player { database, queue }
    }

    /// Carries out a request about the queue; says what the audio side has to do.
    pub fn queue_request(&mut self, req: QueueRequestKind) -> (r: (Response, AudioCommand))
        requires
            old(self).wf(),
            queue_request_allowed(old(self), &req),
        ensures
            final(self).wf(),
            final(self).database == old(self).database,
            match req {
                QueueRequestKind::AddToQueue(AddToQueueArgs(paths, pos)) => {
                    let sel = selected(views_of(paths@), None);
                    &&& (entry_views(final(self).queue.entries()), final(self).queue.mode_view(), final(self).queue.last_id()) == after_adds(
                        entry_views(old(self).queue.entries()),
                        old(self).queue.mode_view(),
                        old(self).queue.last_id(),
                        found_songs(&old(self).database, sel),
                        pos,
                    )
                    &&& final(self).queue.current_entry() == old(self).queue.current_entry()
                    &&& final(self).queue.played() == old(self).queue.played()
                    &&& r.0@ == added_fields("file"@, missing_songs(&old(self).database, sel))
                    &&& r.1 is Nothing
                },
                QueueRequestKind::Clear => {
                    &&& final(self).queue.entries().len() == 0
                    &&& final(self).queue.position() is None
                    &&& final(self).queue.played() == Set::<u32>::empty()
                    &&& final(self).queue.last_id() == 0
                    &&& final(self).queue.mode_view() == mode_cleared(old(self).queue.mode_view())
                    &&& r.0@ == ok_fields()
                    &&& r.1 is Stop
                },
                QueueRequestKind::Next => final(self).queue == old(self).queue && r.0@ == ok_fields() && r.1 is PlayNext,
                QueueRequestKind::Previous => final(self).queue == old(self).queue && r.0@ == ok_fields() && r.1 is PlayPrevious,
                QueueRequestKind::Play(PlayArgs(id)) => {
                    let found = first_index_of(old(self).queue.entries(), id);
                    &&& final(self).queue.entries() == old(self).queue.entries()
                    &&& final(self).queue.mode_view() == mode_without(old(self).queue.mode_view(), id)
                    &&& final(self).queue.played() == old(self).queue.played()
                    &&& final(self).queue.last_id() == old(self).queue.last_id()
                    &&& match found {
                        Some(i) => {
                            &&& final(self).queue.position() == Some(i)
                            &&& r.0@ == ok_fields()
                            &&& r.1 matches AudioCommand::Play(path) && path@ == old(self).queue.entries()[i as int].path@
                        },
                        None => {
                            &&& final(self).queue.position() == old(self).queue.position()
                            &&& r.0@ == err_fields(id_not_found(id))
                            &&& r.1 is Nothing
                        },
                    }
                },
                QueueRequestKind::Random => {
                    let cur = match old(self).queue.current_entry() {
                        Some(e) => Some(e.id),
                        None => None,
                    };
                    let sh = shuffle(not_played_ids(old(self).queue.entries(), old(self).queue.played(), cur));
                    &&& final(self).queue.entries() == old(self).queue.entries()
                    &&& final(self).queue.position() == old(self).queue.position()
                    &&& final(self).queue.played() == old(self).queue.played()
                    &&& final(self).queue.last_id() == old(self).queue.last_id()
                    &&& final(self).queue.mode_view() == ModeView::Random(sh.1, sh.0)
                    &&& r.0@ == ok_fields()
                    &&& r.1 is Nothing
                },
                QueueRequestKind::RemoveFromQueue(RemoveFromQueueArgs(ids)) => {
                    let (e, p, m, hit) = after_removes(
                        old(self).queue.entries(),
                        old(self).queue.position(),
                        old(self).queue.mode_view(),
                        ids@,
                    );
                    &&& final(self).queue.entries() == e
                    &&& final(self).queue.position() == p
                    &&& final(self).queue.mode_view() == m
                    &&& final(self).queue.played() == old(self).queue.played()
                    &&& final(self).queue.last_id() == old(self).queue.last_id()
                    &&& r.0@ == ok_fields()
                    &&& (if hit { r.1 is Stop } else { r.1 is Nothing })
                },
                QueueRequestKind::Sequential => {
                    &&& final(self).queue.entries() == old(self).queue.entries()
                    &&& final(self).queue.position() == old(self).queue.position()
                    &&& final(self).queue.played() == old(self).queue.played()
                    &&& final(self).queue.last_id() == old(self).queue.last_id()
                    &&& final(self).queue.mode_view() == ModeView::Sequential
                    &&& r.0@ == ok_fields()
                    &&& r.1 is Nothing
                },
                QueueRequestKind::Single => {
                    &&& final(self).queue.entries() == old(self).queue.entries()
                    &&& final(self).queue.position() == old(self).queue.position()
                    &&& final(self).queue.played() == old(self).queue.played()
                    &&& final(self).queue.last_id() == old(self).queue.last_id()
                    &&& final(self).queue.mode_view() == ModeView::Single
                    &&& r.0@ == ok_fields()
                    &&& r.1 is Nothing
                },
            },
    {
        match req {
            QueueRequestKind::AddToQueue(AddToQueueArgs(paths, pos)) => {
                let not_found = add_to_queue(&self.database, &mut self.queue, &paths, None, pos);
                (added_response("file", &not_found), AudioCommand::Nothing)
            },
            QueueRequestKind::Clear => {
                self.queue.clear();
                (Response::new_ok(), AudioCommand::Stop)
            },
            QueueRequestKind::Next => (Response::new_ok(), AudioCommand::PlayNext),
            QueueRequestKind::Play(PlayArgs(id)) => {
                match self.queue.move_to(id) {
                    Some(entry) => {
                        let path = entry.path.clone();
                        (Response::new_ok(), AudioCommand::Play(path))
                    },
                    None => {
                        let mut m = String::from_str("song with queue id `");
                        push_decimal(&mut m, id as u64);
                        m.append("` not found");
                        (Response::new_err(m), AudioCommand::Nothing)
                    },
                }
            },
            QueueRequestKind::Previous => (Response::new_ok(), AudioCommand::PlayPrevious),
            QueueRequestKind::Random => {
                self.queue.start_random();
                (Response::new_ok(), AudioCommand::Nothing)
            },
            QueueRequestKind::RemoveFromQueue(RemoveFromQueueArgs(ids)) => {
                let mut stop = false;
                let mut i: usize = 0;
                let ghost e0 = self.queue.entries();
                let ghost p0 = self.queue.position();
                let ghost m0 = self.queue.mode_view();
                assert(ids@.take(0) =~= Seq::<u32>::empty());
                while i < ids.len()
                    invariant
                        i <= ids@.len(),
                        self.queue.wf(),
                        self.database == old(self).database,
                        e0 == old(self).queue.entries(),
                        p0 == old(self).queue.position(),
                        m0 == old(self).queue.mode_view(),
                        self.queue.played() == old(self).queue.played(),
                        self.queue.last_id() == old(self).queue.last_id(),
                        (self.queue.entries(), self.queue.position(), self.queue.mode_view(), stop)
                            == after_removes(e0, p0, m0, ids@.take(i as int)),
                    decreases ids@.len() - i,
                {
                    proof {
                        assert(ids@.take(i + 1).drop_last() =~= ids@.take(i as int));
                        assert(ids@.take(i + 1).last() == ids@[i as int]);
                    }
                    if self.queue.remove(ids[i]) {
                        stop = true;
                    }
                    i = i + 1;
                }
                assert(ids@.take(ids@.len() as int) =~= ids@);
                (Response::new_ok(), if stop {
                    AudioCommand::Stop
                } else {
                    AudioCommand::Nothing
                })
            },
            QueueRequestKind::Sequential => {
                self.queue.start_sequential();
                (Response::new_ok(), AudioCommand::Nothing)
            },
            QueueRequestKind::Single => {
                self.queue.start_single();
                (Response::new_ok(), AudioCommand::Nothing)
            },
        }
    }

    /// After the song to play could not be played: the position is forgotten and
    /// the answer is the error.
    pub fn play_failed(&mut self, reason: String) -> (r: Response)
        requires
            old(self).wf(),
        ensures
            final(self).wf(),
            final(self).database == old(self).database,
            final(self).queue.position() is None,
            final(self).queue.entries() == old(self).queue.entries(),
            final(self).queue.mode_view() == old(self).queue.mode_view(),
            r@ == err_fields(reason@),
    {
        self.queue.reset_pos();
        Response::new_err(reason)
    }

    /// Adds the songs of a playlist (its lines as given) that `range` selects to
    /// the queue, from `pos` on or at the end. The answer names the songs that the
    /// database does not hold.
    pub fn load(&mut self, songs: &Vec<String>, range: Option<(usize, usize)>, pos: Option<usize>) -> (r: Response)
        requires
            old(self).wf(),
            songs@.len() > 0 ==> old(self).database.songs().len() > 0,
            old(self).queue.last_id() + songs@.len() <= u32::MAX,
            pos matches Some(q) ==> q + songs@.len() <= usize::MAX,
        ensures
            final(self).wf(),
            final(self).database == old(self).database,
            ({
                let sel = selected(views_of(songs@), range);
                &&& (entry_views(final(self).queue.entries()), final(self).queue.mode_view(), final(self).queue.last_id()) == after_adds(
                    entry_views(old(self).queue.entries()),
                    old(self).queue.mode_view(),
                    old(self).queue.last_id(),
                    found_songs(&old(self).database, sel),
                    pos,
                )
                &&& r@ == added_fields("song"@, missing_songs(&old(self).database, sel))
            }),
            final(self).queue.current_entry() == old(self).queue.current_entry(),
            final(self).queue.played() == old(self).queue.played(),
    {
        let not_found = add_to_queue(&self.database, &mut self.queue, songs, range, pos);
        added_response("song", &not_found)
    }

    /// Reports the player's playlists, its queue, or its state.
    pub fn status_request(&self, req: StatusRequestKind, audio: &AudioStatus) -> (r: Response)
        requires
            self.wf(),
        ensures
            match req {
                StatusRequestKind::Playlists => r@ == object_insert(
                    ok_fields(),
                    "playlists"@,
                    str_array(self.database.playlist_paths()),
                ),
                StatusRequestKind::Queue => r@ == object_insert(
                    ok_fields(),
                    "queue"@,
                    JsonView::Array(Seq::new(self.queue.entries().len(), |i: int| entry_object(self.queue.entries()[i]))),
                ),
                StatusRequestKind::State => r@ == with_fields(ok_fields(), state_items(&self.queue, *audio)),
            },
    {
        match req {
            StatusRequestKind::Playlists => {
                Response::new_ok().with_item("playlists", self.database.playlists_json())
            },
            StatusRequestKind::Queue => {
                let entries = self.queue.inner();
                let mut items: Vec<Json> = Vec::new();
                let mut i: usize = 0;
                while i < entries.len()
                    invariant
                        i <= entries@.len(),
                        entries@ == self.queue.entries(),
                        items_view(items@) == Seq::new(i as nat, |k: int| entry_object(entries@[k])),
                    decreases entries@.len() - i,
                {
                    let item = entry_json(&entries[i]);
                    let ghost before = items@;
                    items.push(item);
                    assert(items_view(items@) =~= items_view(before).push(item@));
                    assert(items_view(items@) =~= Seq::new(i as nat + 1, |k: int| entry_object(entries@[k])));
                    i = i + 1;
                }
                let value = Json::Array(items);
                proof {
                    lemma_array_view(&value, items);
                }
                Response::new_ok().with_item("queue", value)
            },
            StatusRequestKind::State => {
                let ghost items = state_items(&self.queue, *audio);
                let mut r = Response::new_ok().with_item("gapless", Json::Bool(audio.gapless)).with_item(
                    "mode",
                    Json::Str(self.queue.mode()),
                ).with_item("state", Json::Str(audio.state.name())).with_item(
                    "speed",
                    Json::Number(Number::PosInt(audio.speed.get() as u64)),
                ).with_item("volume", Json::Number(Number::PosInt(audio.volume.get() as u64)));
                let ghost base = items.take(5);
                proof {
                    assert(base.take(4) =~= base.drop_last());
                    assert(r@ == with_fields(ok_fields(), base)) by {
                        reveal_with_fuel(with_fields, 6);
                        assert(base.drop_last().drop_last() =~= base.take(3));
                        assert(base.take(3).drop_last() =~= base.take(2));
                        assert(base.take(2).drop_last() =~= base.take(1));
                        assert(base.take(1).drop_last() =~= base.take(0));
                    }
                }
                let ghost mut done = base;
                match audio.timer {
                    Some(t) => {
                        r = r.with_item("elapsed", Json::Number(Number::PosInt(t.elapsed))).with_item(
                            "duration",
                            Json::Number(Number::PosInt(t.duration)),
                        );
                        proof {
                            let more = base + seq![
                                ("elapsed"@, JsonView::Number(Number::PosInt(t.elapsed))),
                                ("duration"@, JsonView::Number(Number::PosInt(t.duration))),
                            ];
                            assert(more.drop_last() =~= base.push(("elapsed"@, JsonView::Number(Number::PosInt(t.elapsed)))));
                            assert(base.push(("elapsed"@, JsonView::Number(Number::PosInt(t.elapsed)))).drop_last() =~= base);
                            reveal_with_fuel(with_fields, 3);
                            assert(r@ == with_fields(ok_fields(), more));
                            done = more;
                        }
                    },
                    None => {},
                }
                assert(r@ == with_fields(ok_fields(), done));
                match self.queue.current() {
                    Some(e) => {
                        r = r.with_item("id", Json::Number(Number::PosInt(e.id as u64))).with_item(
                            "path",
                            Json::Str(e.path.clone()),
                        );
                        proof {
                            let more = done + seq![
                                ("id"@, JsonView::Number(Number::PosInt(e.id as u64))),
                                ("path"@, JsonView::Str(e.path@)),
                            ];
                            assert(more.drop_last() =~= done.push(("id"@, JsonView::Number(Number::PosInt(e.id as u64)))));
                            assert(done.push(("id"@, JsonView::Number(Number::PosInt(e.id as u64)))).drop_last() =~= done);
                            reveal_with_fuel(with_fields, 3);
                            assert(r@ == with_fields(ok_fields(), more));
                            done = more;
                        }
                    },
                    None => {},
                }
                assert(done =~= items);
                r
            },
        }
    }

    /// What is kept for the next run: the audio settings, and the queue without a
    /// current position.
    pub fn state(&self, audio: &AudioStatus) -> (r: State)
        requires
            self.wf(),
        ensures
            r.audio_state.volume == audio.volume,
            r.audio_state.speed == audio.speed,
            r.audio_state.gapless == audio.gapless,
            r.player_state.queue.wf(),
            r.player_state.queue.entries() == self.queue.entries(),
            r.player_state.queue.position() is None,
            r.player_state.queue.mode_view() == self.queue.mode_view(),
            r.player_state.queue.played() == self.queue.played(),
            r.player_state.queue.last_id() == self.queue.last_id(),
    {
        let mut queue = self.queue.clone();
        queue.reset_pos();
        State {
            audio_state: AudioState { volume: audio.volume, speed: audio.speed, gapless: audio.gapless },
            player_state: PlayerState { queue },
        }
    }
}

/// A queue entry as a JSON object.
fn entry_json(e: &Entry) -> (r: Json)
    ensures
        r@ == entry_object(*e),
{
    let mut fields: Vec<(String, Json)> = Vec::new();
    fields.push((String::from_str("id"), Json::Number(Number::PosInt(e.id as u64))));
    fields.push((String::from_str("path"), Json::Str(e.path.clone())));
    let r = Json::Object(fields);
    proof {
        lemma_object_view(&r, fields);
        reveal_strlit("id");
        reveal_strlit("path");
        assert(fields_view(fields@) =~= seq![
            ("id"@, JsonView::Number(Number::PosInt(e.id as u64))),
            ("path"@, JsonView::Str(e.path@)),
        ]);
    }
    r
}

} // verus!
