use rayon::slice::ParallelSliceMut;
use std::cmp::Ordering;
use vstd::prelude::*;
use vstd::string::StringExecFns;

use crate::model::json::{fields_view, items_view, lemma_array_view, lemma_object_view, Json, JsonView, Number};
use crate::model::comparator::{chain_order, compare_songs, reversed_order, Comparator};
use crate::model::filter::{all_pass, FilterExpr, RegexFilter};
use crate::model::queue::Entry;
use crate::model::request::{LsArgs, MetadataArgs, SelectArgs};
use crate::model::response::{err_fields, insert_field, ok_fields, object_insert, Response};
use crate::model::tag_key::{tag_index, tag_name, TagKey};
use crate::model::song::{song_views, Metadata, Song, SongView};
use crate::path::{
    is_in_dir, join, join_path, parent_dir, strip_dir, strip_dir_prefix, trim_end, lemma_path_lt_asymmetric, lemma_path_lt_irreflexive, lemma_path_lt_total,
    lemma_path_lt_transitive, path_le, path_less, path_lt, path_ordering,
};
use crate::model::playlist::{is_comment, lemma_no_comments_kept, playlist_songs};
use crate::text::{lemma_lines_of_terminated, no_newline, no_trailing_cr, push_char, str_eq, terminated, views_of};
use vstd::multiset::Multiset;
use vstd::seq_lib::{group_to_multiset_ensures, lemma_multiset_commutative};

verus! {

/// A song of the database, with a mark for songs to drop.
#[derive(Debug)]
pub struct DataRow {
    pub song: Song,
    pub pending_delete: bool,
}

/// The songs of rows, as plain values.
pub open spec fn songs_of(rows: Seq<DataRow>) -> Seq<SongView> {
    Seq::new(rows.len(), |i: int| rows[i].song@)
}

/// The songs come in the order of their paths.
pub open spec fn sorted_by_path(s: Seq<SongView>) -> bool {
    forall|i: int, j: int| 0 <= i < j < s.len() ==> path_le(#[trigger] s[i].path, #[trigger] s[j].path)
}

/// No two songs share a path.
pub open spec fn paths_distinct(s: Seq<SongView>) -> bool {
    forall|i: int, j: int| 0 <= i < s.len() && 0 <= j < s.len() && i != j ==> #[trigger] s[i].path != #[trigger] s[j].path
}

/// Songs with distinct paths keep them so in any order of the same songs.
proof fn lemma_paths_distinct_multiset(s: Seq<SongView>, t: Seq<SongView>)
    requires
        paths_distinct(s),
        t.to_multiset() == s.to_multiset(),
    ensures
        paths_distinct(t),
{
    broadcast use vstd::seq_lib::to_multiset_contains;

    assert(s.no_duplicates()) by {
        assert forall|i: int, j: int| 0 <= i < s.len() && 0 <= j < s.len() && i != j implies s[i] != s[j] by {
            assert(s[i].path != s[j].path);
        }
    }
    s.lemma_multiset_has_no_duplicates();
    t.lemma_multiset_has_no_duplicates_conv();
    assert forall|i: int, j: int| 0 <= i < t.len() && 0 <= j < t.len() && i != j implies #[trigger] t[i].path
        != #[trigger] t[j].path by {
        assert(t.contains(t[i]));
        assert(t.contains(t[j]));
        assert(t.to_multiset().count(t[i]) > 0);
        assert(t.to_multiset().count(t[j]) > 0);
        assert(s.contains(t[i]));
        assert(s.contains(t[j]));
        let a = choose|a: int| 0 <= a < s.len() && s[a] == t[i];
        let b = choose|b: int| 0 <= b < s.len() && s[b] == t[j];
        assert(t[i] != t[j]);
        assert(a != b);
    }
}

/// Two lists of songs with distinct paths, no path in both, hold distinct paths
/// together, in any order.
proof fn lemma_paths_distinct_union(a: Seq<SongView>, b: Seq<SongView>, r: Seq<SongView>)
    requires
        paths_distinct(a),
        paths_distinct(b),
        forall|k: int| 0 <= k < b.len() ==> !has_path(a, #[trigger] b[k].path),
        r.to_multiset() == a.to_multiset().add(b.to_multiset()),
    ensures
        paths_distinct(r),
{
    let c = a + b;
    vstd::seq_lib::lemma_multiset_commutative(a, b);
    assert forall|i: int, j: int| 0 <= i < c.len() && 0 <= j < c.len() && i != j implies #[trigger] c[i].path
        != #[trigger] c[j].path by {
        if i < a.len() && j < a.len() {
            assert(c[i] == a[i] && c[j] == a[j]);
        } else if i >= a.len() && j >= a.len() {
            assert(c[i] == b[i - a.len()] && c[j] == b[j - a.len()]);
        } else if i < a.len() {
            assert(c[i] == a[i] && c[j] == b[j - a.len()]);
            assert(!has_path(a, b[j - a.len()].path));
        } else {
            assert(c[j] == a[j] && c[i] == b[i - a.len()]);
            assert(!has_path(a, b[i - a.len()].path));
        }
    }
    lemma_paths_distinct_multiset(c, r);
}

/// The songs kept from rows sorted by path when each is kept only if its path
/// differs from the last one kept.
pub open spec fn first_per_path(s: Seq<SongView>) -> Seq<SongView>
    decreases s.len(),
{
    if s.len() == 0 {
        s
    } else {
        let d = first_per_path(s.drop_last());
        if d.len() > 0 && d.last().path == s.last().path {
            d
        } else {
            d.push(s.last())
        }
    }
}

/// Rows sorted by path with only the first of each path kept.
fn dedup_rows(rows: Vec<DataRow>) -> (r: Vec<DataRow>)
    requires
        sorted_by_path(songs_of(rows@)),
    ensures
        songs_of(r@) == first_per_path(songs_of(rows@)),
        sorted_by_path(songs_of(r@)),
        paths_distinct(songs_of(r@)),
        paths_distinct(songs_of(rows@)) ==> songs_of(r@) == songs_of(rows@),
        forall|k: int| 0 <= k < r@.len() ==> songs_of(rows@).contains(#[trigger] songs_of(r@)[k]),
        forall|j: int| 0 <= j < rows@.len() ==> has_path(songs_of(r@), #[trigger] songs_of(rows@)[j].path),
{
    let ghost s = songs_of(rows@);
    let n = rows.len();
    let mut rr = reversed(rows);
    let mut out: Vec<DataRow> = Vec::new();
    let mut i: usize = 0;
    assert(s.take(0) =~= Seq::<SongView>::empty());
    assert(songs_of(out@) =~= Seq::<SongView>::empty());
    while i < n
        invariant
            n == s.len(),
            i <= n,
            sorted_by_path(s),
            rr@.len() == n - i,
            forall|t: int| 0 <= t < rr@.len() ==> #[trigger] rr@[t].song@ == s[n - 1 - t],
            songs_of(out@) == first_per_path(s.take(i as int)),
            sorted_by_path(songs_of(out@)),
            paths_distinct(songs_of(out@)),
            paths_distinct(s) ==> songs_of(out@) == s.take(i as int),
            forall|k: int| 0 <= k < out@.len() ==> exists|j: int| 0 <= j < i && #[trigger] songs_of(out@)[k] == s[j],
            forall|j: int| 0 <= j < i ==> has_path(songs_of(out@), #[trigger] s[j].path),
            i > 0 ==> out@.len() > 0 && songs_of(out@).last().path == s[i - 1].path,
        decreases n - i,
    {
        assert(rr@[rr@.len() - 1].song@ == s[i as int]);
        let row = rr.pop().unwrap();
        let ghost before = songs_of(out@);
        proof {
            assert(s.take(i + 1).drop_last() =~= s.take(i as int));
            assert(s.take(i + 1).last() == s[i as int]);
        }
        let keep = if out.len() == 0 {
            true
        } else {
            !str_eq(out[out.len() - 1].song.path.as_str(), row.song.path.as_str())
        };
        if keep {
            proof {
                assert forall|t: int| 0 <= t < before.len() implies path_le(#[trigger] before[t].path, s[i as int].path) by {
                    let j = choose|j: int| 0 <= j < i && before[t] == s[j];
                }
                assert forall|t: int| 0 <= t < before.len() implies before[t].path != s[i as int].path by {
                    if before[t].path == s[i as int].path {
                        // `before` is sorted and its last path is s[i - 1]'s, between them
                        let l = before.len() - 1;
                        assert(path_le(before[t].path, before[l].path) || t == l);
                        assert(path_le(before[l].path, s[i as int].path));
                        if path_lt(before[t].path, before[l].path) {
                            lemma_path_lt_asymmetric(before[t].path, before[l].path);
                        }
                    }
                }
            }
            out.push(row);
            proof {
                let now = songs_of(out@);
                assert(now =~= before.push(s[i as int]));
                assert forall|k: int| 0 <= k < out@.len() implies exists|j: int| 0 <= j < i + 1 && #[trigger] songs_of(out@)[k] == s[j] by {
                    if k < before.len() {
                        let j = choose|j: int| 0 <= j < i && before[k] == s[j];
                        assert(now[k] == s[j]);
                    } else {
                        assert(now[k] == s[i as int]);
                    }
                }
                assert forall|j: int| 0 <= j < i + 1 implies has_path(songs_of(out@), #[trigger] s[j].path) by {
                    if j < i {
                        let k = choose|k: int| 0 <= k < before.len() && #[trigger] before[k].path == s[j].path;
                        assert(now[k] == before[k]);
                    } else {
                        assert(now[before.len() as int] == s[j]);
                    }
                }
                if paths_distinct(s) {
                    assert(now =~= s.take(i + 1));
                }
            }
        } else {
            proof {
                assert(songs_of(out@) == before);
                if paths_distinct(s) {
                    assert(s[i - 1].path != s[i as int].path);
                }
                assert(before.last().path == s[i as int].path);
                assert forall|j: int| 0 <= j < i + 1 implies has_path(songs_of(out@), #[trigger] s[j].path) by {
                    if j == i {
                        assert(before[before.len() - 1].path == s[j].path);
                    }
                }
            }
        }
        i = i + 1;
    }
    assert(s.take(n as int) =~= s);
    proof {
        assert forall|k: int| 0 <= k < out@.len() implies s.contains(#[trigger] songs_of(out@)[k]) by {
            let j = choose|j: int| 0 <= j < n && songs_of(out@)[k] == s[j];
        }
    }
    out
}

/// Some song has the path `p`.
pub open spec fn has_path(s: Seq<SongView>, p: Seq<char>) -> bool {
    exists|i: int| 0 <= i < s.len() && #[trigger] s[i].path == p
}

/// `path` made absolute: relative paths are taken from `root`.
pub open spec fn abs_path(root: Seq<char>, path: Seq<char>) -> Seq<char> {
    join(root, path)
}

/// The name of the directory under the music directory that holds the playlists
/// when none is given.
pub open spec fn default_playlist_dir(music_dir: Seq<char>) -> Seq<char> {
    join(music_dir, "playlists"@)
}

/// Sorts songs by their paths.
///
/// Trusted: `rayon`'s `par_sort_unstable_by` reorders the slice so that it is sorted
/// by the comparator, which here orders paths totally; it keeps the songs, only
/// their order changes.
#[verifier::external_body]
fn sort_songs_by_path(songs: &mut Vec<Song>)
    ensures
        song_views(final(songs)@).to_multiset() == song_views(old(songs)@).to_multiset(),
        sorted_by_path(song_views(final(songs)@)),
{
    songs.par_sort_unstable_by(|a, b| path_ordering(a.path.as_str(), b.path.as_str()));
}

/// `a` comes before `c` when `a` is at most `b` and `b` comes before `c`, or `a`
/// comes before `b` and `b` is at most `c`.
proof fn lemma_path_order_chain(a: Seq<char>, b: Seq<char>, c: Seq<char>)
    ensures
        path_le(a, b) && path_lt(b, c) ==> path_lt(a, c),
        path_lt(a, b) && path_le(b, c) ==> path_lt(a, c),
        path_le(a, b) && path_le(b, c) ==> path_le(a, c),
{
    if path_lt(a, b) && path_lt(b, c) {
        lemma_path_lt_transitive(a, b, c);
    }
}

/// The rows of the songs, sorted by path.
pub fn to_data_rows(songs: Vec<Song>) -> (rows: Vec<DataRow>)
    ensures
        songs_of(rows@).to_multiset() == song_views(songs@).to_multiset(),
        sorted_by_path(songs_of(rows@)),
        forall|i: int| 0 <= i < rows@.len() ==> !(#[trigger] rows@[i]).pending_delete,
{
    let mut songs = songs;
    sort_songs_by_path(&mut songs);
    let ghost sorted = song_views(songs@);
    let mut rows: Vec<DataRow> = Vec::new();
    let n = songs.len();
    let mut i: usize = 0;
    while i < n
        invariant
            n == songs@.len(),
            i <= n,
            sorted == song_views(songs@),
            songs_of(rows@) == sorted.take(i as int),
            forall|j: int| 0 <= j < rows@.len() ==> !(#[trigger] rows@[j]).pending_delete,
        decreases n - i,
    {
        let song = songs[i].clone();
        assert(song@ == sorted[i as int]);
        let ghost before = rows@;
        rows.push(DataRow { song, pending_delete: false });
        assert(songs_of(rows@) =~= songs_of(before).push(sorted[i as int]));
        assert(sorted.take(i as int + 1) =~= sorted.take(i as int).push(sorted[i as int]));
        i = i + 1;
    }
    assert(sorted.take(n as int) =~= sorted);
    rows
}

/// Finds the row of the song at `path` in rows sorted by path: the last one with
/// that path, or `None` when no row has it. The rows may not be empty.
pub fn binary_search_by_path(rows: &Vec<DataRow>, path: &str) -> (r: Option<usize>)
    requires
        rows@.len() > 0,
        sorted_by_path(songs_of(rows@)),
    ensures
        match r {
            Some(i) => i < rows@.len() && rows@[i as int].song.path@ == path@ && (i + 1
                == rows@.len() || path_lt(path@, rows@[i + 1].song.path@)),
            None => !has_path(songs_of(rows@), path@),
        },
{
    let n = rows.len();
    let ghost s = songs_of(rows@);
    let mut i: usize = 0;
    let mut step: usize = n / 2;
    let ghost mut unit_done = false;
    while step >= 1
        invariant
            n == rows@.len(),
            s == songs_of(rows@),
            sorted_by_path(s),
            0 < n,
            i < n,
            i > 0 ==> path_le(s[i as int].path, path@),
            unit_done ==> step == 0,
            (n >= 2 && step == 0) ==> unit_done,
            unit_done ==> (i + 1 >= n || path_lt(path@, s[i + 1].path)),
        decreases step,
    {
        while step < n - i && !path_less(path, rows[i + step].song.path.as_str())
            invariant
                n == rows@.len(),
                s == songs_of(rows@),
                0 < n,
                i < n,
                step >= 1,
                i > 0 ==> path_le(s[i as int].path, path@),
            decreases n - i,
        {
            proof {
                lemma_path_lt_total(path@, s[i + step].path);
            }
            i = i + step;
        }
        proof {
            if step == 1 {
                unit_done = true;
                if i + 1 < n {
                    assert(path_lt(path@, s[i + 1].path));
                }
            }
        }
        step = step / 2;
    }
    assert(s[i as int] == rows@[i as int].song@);
    if str_eq(rows[i].song.path.as_str(), path) {
        Some(i)
    } else {
        proof {
            assert forall|j: int| 0 <= j < n implies #[trigger] s[j].path != path@ by {
                if j > i {
                    assert(i + 1 < n);
                    assert(path_le(s[i + 1].path, s[j].path));
                    lemma_path_order_chain(path@, s[i + 1].path, s[j].path);
                    lemma_path_lt_irreflexive(path@);
                } else if j < i {
                    assert(path_le(s[j].path, s[i as int].path));
                    assert(path_lt(s[i as int].path, path@));
                    lemma_path_order_chain(s[j].path, s[i as int].path, path@);
                    lemma_path_lt_irreflexive(path@);
                }
            }
        }
        None
    }
}


/// The songs of `a` and `b`, both sorted by path, merged into one sorted sequence: at
/// equal paths those of `b` come first.
pub open spec fn merge_views(a: Seq<SongView>, b: Seq<SongView>) -> Seq<SongView>
    decreases a.len(), b.len(),
{
    if a.len() == 0 {
        b
    } else if b.len() == 0 {
        a
    } else if path_lt(a[0].path, b[0].path) {
        seq![a[0]] + merge_views(a.drop_first(), b)
    } else {
        seq![b[0]] + merge_views(a, b.drop_first())
    }
}

/// Merging keeps every song of both sides, and a sorted order.
pub proof fn lemma_merge_views(a: Seq<SongView>, b: Seq<SongView>)
    requires
        sorted_by_path(a),
        sorted_by_path(b),
    ensures
        merge_views(a, b).to_multiset() == a.to_multiset().add(b.to_multiset()),
        sorted_by_path(merge_views(a, b)),
    decreases a.len(), b.len(),
{
    broadcast use group_to_multiset_ensures;
    broadcast use lemma_multiset_commutative;

    if a.len() == 0 {
        assert(a.to_multiset() =~= Multiset::empty());
        assert(b.to_multiset() =~= a.to_multiset().add(b.to_multiset()));
    } else if b.len() == 0 {
        assert(b.to_multiset() =~= Multiset::empty());
        assert(a.to_multiset() =~= a.to_multiset().add(b.to_multiset()));
    } else {
        let (first, rest, other_first) = if path_lt(a[0].path, b[0].path) {
            let t = a.drop_first();
            assert(sorted_by_path(t)) by {
                assert forall|i: int, j: int| 0 <= i < j < t.len() implies path_le(
                    #[trigger] t[i].path,
                    #[trigger] t[j].path,
                ) by {
                    assert(t[i] == a[i + 1] && t[j] == a[j + 1]);
                }
            }
            lemma_merge_views(t, b);
            assert(a =~= seq![a[0]] + t);
            (a[0], merge_views(t, b), b[0])
        } else {
            let t = b.drop_first();
            assert(sorted_by_path(t)) by {
                assert forall|i: int, j: int| 0 <= i < j < t.len() implies path_le(
                    #[trigger] t[i].path,
                    #[trigger] t[j].path,
                ) by {
                    assert(t[i] == b[i + 1] && t[j] == b[j + 1]);
                }
            }
            lemma_merge_views(a, t);
            assert(b =~= seq![b[0]] + t);
            (b[0], merge_views(a, t), a[0])
        };
        let m = merge_views(a, b);
        assert(m == seq![first] + rest);
        assert(m.to_multiset() =~= a.to_multiset().add(b.to_multiset())) by {
            assert((seq![first] + rest).to_multiset() =~= seq![first].to_multiset().add(
                rest.to_multiset(),
            ));
            assert(a =~= seq![a[0]] + a.drop_first());
            assert(b =~= seq![b[0]] + b.drop_first());
            assert((seq![a[0]] + a.drop_first()).to_multiset() =~= seq![a[0]].to_multiset().add(a.drop_first().to_multiset()));
            assert((seq![b[0]] + b.drop_first()).to_multiset() =~= seq![b[0]].to_multiset().add(b.drop_first().to_multiset()));
        }
        // every song after the first is at least as far in the order
        assert forall|k: int| 0 <= k < rest.len() implies path_le(first.path, #[trigger] rest[k].path) by {
            let x = rest[k];
            assert(rest.to_multiset().count(x) > 0);
            if path_lt(a[0].path, b[0].path) {
                if a.drop_first().contains(x) {
                    let q = choose|q: int| 0 <= q < a.drop_first().len() && a.drop_first()[q] == x;
                    assert(a[q + 1] == x);
                } else {
                    assert(b.contains(x));
                    let q = choose|q: int| 0 <= q < b.len() && b[q] == x;
                    if q > 0 {
                        assert(path_le(b[0].path, b[q].path));
                    }
                    lemma_path_order_chain(a[0].path, b[0].path, x.path);
                }
            } else {
                lemma_path_lt_total(a[0].path, b[0].path);
                if b.drop_first().contains(x) {
                    let q = choose|q: int| 0 <= q < b.drop_first().len() && b.drop_first()[q] == x;
                    assert(b[q + 1] == x);
                } else {
                    assert(a.contains(x));
                    let q = choose|q: int| 0 <= q < a.len() && a[q] == x;
                    if q > 0 {
                        assert(path_le(a[0].path, a[q].path));
                    }
                    lemma_path_order_chain(b[0].path, a[0].path, x.path);
                }
            }
        }
        assert forall|i: int, j: int| 0 <= i < j < m.len() implies path_le(
            #[trigger] m[i].path,
            #[trigger] m[j].path,
        ) by {
            if i == 0 {
                assert(m[j] == rest[j - 1]);
            } else {
                assert(m[i] == rest[i - 1] && m[j] == rest[j - 1]);
            }
        }
    }
}

/// What became of the file of a song since the last update, as plain values.
pub enum RowCheckView {
    Unchanged,
    Modified(Map<u8, Seq<char>>),
    Unreadable,
}

/// What became of the file of a song since the last update.
#[derive(Debug)]
pub enum RowCheck {
    /// The file is there and did not change.
    Unchanged,
    /// The file changed; these are the tags read from it again.
    Modified(Metadata),
    /// The file can no longer be read.
    Unreadable,
}

impl View for RowCheck {
    type V = RowCheckView;

    open spec fn view(&self) -> RowCheckView {
        match self {
            RowCheck::Unchanged => RowCheckView::Unchanged,
            RowCheck::Modified(m) => RowCheckView::Modified(m.values()),
            RowCheck::Unreadable => RowCheckView::Unreadable,
        }
    }
}

/// The plain values of checks.
pub open spec fn check_views(c: Seq<RowCheck>) -> Seq<RowCheckView> {
    Seq::new(c.len(), |i: int| c[i]@)
}

/// The songs that stay after the checks: unreadable ones go, changed ones take
/// their new tags; the order stays.
pub open spec fn kept_songs(songs: Seq<SongView>, checks: Seq<RowCheckView>) -> Seq<SongView>
    decreases songs.len(),
{
    if songs.len() == 0 {
        Seq::empty()
    } else {
        let rest = kept_songs(songs.drop_last(), checks.drop_last());
        match checks.last() {
            RowCheckView::Unreadable => rest,
            RowCheckView::Unchanged => rest.push(songs.last()),
            RowCheckView::Modified(m) => rest.push(SongView { path: songs.last().path, values: m }),
        }
    }
}

/// The fields of the answer to an update: how many songs were added and removed.
pub open spec fn update_fields(added: nat, removed: nat) -> Seq<(Seq<char>, JsonView)> {
    object_insert(
        object_insert(ok_fields(), "added_songs"@, JsonView::Number(Number::PosInt(added as u64))),
        "removed_songs"@,
        JsonView::Number(Number::PosInt(removed as u64)),
    )
}

/// The answer to an update that added `added` songs and removed `removed`.
pub fn update_response(added: usize, removed: usize) -> (r: Response)
    ensures
        r@ == update_fields(added as nat, removed as nat),
{
    Response::new_ok().with_item("added_songs", Json::Number(Number::PosInt(added as u64))).with_item(
        "removed_songs",
        Json::Number(Number::PosInt(removed as u64)),
    )
}

/// The items of `v` in reverse order.
fn reversed<T>(v: Vec<T>) -> (r: Vec<T>)
    ensures
        r@.len() == v@.len(),
        forall|k: int| 0 <= k < v@.len() ==> #[trigger] r@[k] == v@[v@.len() - 1 - k],
{
    let ghost orig = v@;
    let mut v = v;
    let mut r: Vec<T> = Vec::new();
    while v.len() > 0
        invariant
            v@ == orig.take(v@.len() as int),
            r@.len() + v@.len() == orig.len(),
            forall|k: int| 0 <= k < r@.len() ==> #[trigger] r@[k] == orig[orig.len() - 1 - k],
        decreases v@.len(),
    {
        let x = v.pop().unwrap();
        r.push(x);
    }
    r
}

/// Merges rows sorted by path into one sorted sequence, those of `b` first at equal
/// paths.
fn merge_rows(a: Vec<DataRow>, b: Vec<DataRow>) -> (r: Vec<DataRow>)
    ensures
        songs_of(r@) == merge_views(songs_of(a@), songs_of(b@)),
{
    let ghost sa = songs_of(a@);
    let ghost sb = songs_of(b@);
    let na = a.len();
    let nb = b.len();
    let mut ra = reversed(a);
    let mut rb = reversed(b);
    let mut out: Vec<DataRow> = Vec::new();
    let ghost mut i: int = 0;
    let ghost mut j: int = 0;
    assert(sa.skip(0) =~= sa);
    assert(sb.skip(0) =~= sb);
    while ra.len() > 0 || rb.len() > 0
        invariant
            sa.len() == na,
            sb.len() == nb,
            0 <= i <= na,
            0 <= j <= nb,
            ra@.len() == na - i,
            rb@.len() == nb - j,
            forall|k: int| 0 <= k < ra@.len() ==> #[trigger] ra@[k].song@ == sa[na - 1 - k],
            forall|k: int| 0 <= k < rb@.len() ==> #[trigger] rb@[k].song@ == sb[nb - 1 - k],
            songs_of(out@) + merge_views(sa.skip(i), sb.skip(j)) == merge_views(sa, sb),
        decreases ra@.len() + rb@.len(),
    {
        let ghost before = songs_of(out@);
        let take_a = if ra.len() == 0 {
            false
        } else if rb.len() == 0 {
            true
        } else {
            path_less(
                ra[ra.len() - 1].song.path.as_str(),
                rb[rb.len() - 1].song.path.as_str(),
            )
        };
        if take_a {
            assert(ra@[ra@.len() - 1].song@ == sa[i]);
            let x = ra.pop().unwrap();
            assert(sa.skip(i)[0] == sa[i]);
            assert(sa.skip(i).drop_first() =~= sa.skip(i + 1));
            if rb.len() > 0 {
                assert(rb@[rb@.len() - 1].song@ == sb[j]);
                assert(sb.skip(j)[0] == sb[j]);
            } else {
                assert(sb.skip(j).len() == 0);
                assert(sa.skip(i) =~= seq![sa[i]] + sa.skip(i + 1));
            }
            out.push(x);
            proof {
                i = i + 1;
            }
            assert(songs_of(out@) =~= before.push(x.song@));
            assert(songs_of(out@) + merge_views(sa.skip(i), sb.skip(j)) =~= before + (seq![x.song@]
                + merge_views(sa.skip(i), sb.skip(j))));
        } else {
            assert(rb@[rb@.len() - 1].song@ == sb[j]);
            let x = rb.pop().unwrap();
            assert(sb.skip(j)[0] == sb[j]);
            assert(sb.skip(j).drop_first() =~= sb.skip(j + 1));
            if ra.len() > 0 {
                assert(ra@[ra@.len() - 1].song@ == sa[i]);
                assert(sa.skip(i)[0] == sa[i]);
            } else {
                assert(sa.skip(i).len() == 0);
                assert(sb.skip(j) =~= seq![sb[j]] + sb.skip(j + 1));
            }
            out.push(x);
            proof {
                j = j + 1;
            }
            assert(songs_of(out@) =~= before.push(x.song@));
            assert(songs_of(out@) + merge_views(sa.skip(i), sb.skip(j)) =~= before + (seq![x.song@]
                + merge_views(sa.skip(i), sb.skip(j))));
        }
    }
    assert(sa.skip(i).len() == 0 && sb.skip(j).len() == 0);
    assert(songs_of(out@) =~= songs_of(out@) + merge_views(sa.skip(i), sb.skip(j)));
    out
}


/// `i` is the last row whose song has the path `p`.
pub open spec fn is_last_with_path(s: Seq<SongView>, p: Seq<char>, i: int) -> bool {
    0 <= i < s.len() && s[i].path == p && forall|j: int| i < j < s.len() ==> #[trigger] s[j].path != p
}

/// The last row whose song has the path `p`.
pub open spec fn last_with_path(s: Seq<SongView>, p: Seq<char>) -> int {
    choose|i: int| is_last_with_path(s, p, i)
}

/// A tag's value as JSON: its text, or null when the song has none.
pub open spec fn tag_value_view(values: Map<u8, Seq<char>>, t: TagKey) -> JsonView {
    let k = tag_index(t.key);
    if values.contains_key(k) {
        JsonView::Str(values[k])
    } else {
        JsonView::Null
    }
}

/// The object that maps the names of `tags` to their values.
pub open spec fn tags_object(values: Map<u8, Seq<char>>, tags: Seq<TagKey>) -> Seq<(Seq<char>, JsonView)>
    decreases tags.len(),
{
    if tags.len() == 0 {
        Seq::empty()
    } else {
        object_insert(
            tags_object(values, tags.drop_last()),
            tag_name(tags.last().key),
            tag_value_view(values, tags.last()),
        )
    }
}

/// The tags of the song at `abs`, or null when the database does not hold it.
pub open spec fn song_metadata(s: Seq<SongView>, abs: Seq<char>, tags: Seq<TagKey>) -> JsonView {
    if has_path(s, abs) {
        JsonView::Object(tags_object(s[last_with_path(s, abs)].values, tags))
    } else {
        JsonView::Null
    }
}

/// The answer to a metadata request for `paths`.
pub open spec fn metadata_fields(
    s: Seq<SongView>,
    music_dir: Seq<char>,
    paths: Seq<Seq<char>>,
    tags: Seq<TagKey>,
) -> Seq<(Seq<char>, JsonView)> {
    object_insert(
        ok_fields(),
        "metadata"@,
        JsonView::Array(Seq::new(paths.len(), |i: int| song_metadata(s, abs_path(music_dir, paths[i]), tags))),
    )
}

/// The paths of the songs directly in the directory `dir`, in order.
pub open spec fn dir_songs(s: Seq<SongView>, dir: Seq<char>) -> Seq<Seq<char>>
    decreases s.len(),
{
    if s.len() == 0 {
        Seq::empty()
    } else {
        let r = dir_songs(s.drop_last(), dir);
        if parent_dir(s.last().path) == Some(trim_end(dir)) {
            r.push(s.last().path)
        } else {
            r
        }
    }
}

/// Texts as a JSON array of strings.
pub open spec fn str_array(v: Seq<Seq<char>>) -> JsonView {
    JsonView::Array(Seq::new(v.len(), |i: int| JsonView::Str(v[i])))
}

/// What `ls` lists for the absolute path `abs`: the song there when it names a file
/// the database holds, or the songs directly in it when it is a directory.
pub open spec fn ls_paths(s: Seq<SongView>, abs: Seq<char>, is_file: bool) -> Seq<Seq<char>> {
    if is_file {
        if has_path(s, abs) {
            seq![abs]
        } else {
            Seq::empty()
        }
    } else {
        dir_songs(s, abs)
    }
}

/// A tag's value as JSON.
fn tag_value_json(m: &Metadata, t: &TagKey) -> (r: Json)
    ensures
        r@ == tag_value_view(m.values(), *t),
{
    match m.get(t) {
        Some(v) => Json::Str(String::from_str(v)),
        None => Json::Null,
    }
}

/// The object that maps the names of `tags` to their values in `m`.
fn tags_object_of(m: &Metadata, tags: &Vec<TagKey>) -> (r: Vec<(String, Json)>)
    ensures
        fields_view(r@) == tags_object(m.values(), tags@),
{
    let mut obj: Vec<(String, Json)> = Vec::new();
    let mut i: usize = 0;
    assert(fields_view(obj@) =~= Seq::<(Seq<char>, JsonView)>::empty());
    while i < tags.len()
        invariant
            i <= tags@.len(),
            fields_view(obj@) == tags_object(m.values(), tags@.take(i as int)),
        decreases tags@.len() - i,
    {
        let name = tags[i].name();
        let value = tag_value_json(m, &tags[i]);
        insert_field(&mut obj, name.as_str(), value);
        assert(tags@.take(i + 1).drop_last() =~= tags@.take(i as int));
        i = i + 1;
    }
    assert(tags@.take(tags@.len() as int) =~= tags@);
    obj
}

/// Texts as a JSON array of strings.
pub fn str_array_json(v: Vec<String>) -> (r: Json)
    ensures
        r@ == str_array(views_of(v@)),
{
    let mut items: Vec<Json> = Vec::new();
    let mut i: usize = 0;
    while i < v.len()
        invariant
            i <= v@.len(),
            items_view(items@) == Seq::new(i as nat, |k: int| JsonView::Str(v@[k]@)),
        decreases v@.len() - i,
    {
        let c = v[i].clone();
        assert(c@ == v@[i as int]@);
        let ghost before = items@;
        items.push(Json::Str(c));
        assert(items_view(items@) =~= items_view(before).push(JsonView::Str(v@[i as int]@)));
        assert(items_view(items@) =~= Seq::new(i as nat + 1, |k: int| JsonView::Str(v@[k]@)));
        i = i + 1;
    }
    let r = Json::Array(items);
    proof {
        lemma_array_view(&r, items);
        assert(items_view(items@) =~= Seq::new(views_of(v@).len(), |k: int| JsonView::Str(views_of(v@)[k])));
    }
    r
}


/// The tag values of the songs at positions `idx`.
pub open spec fn values_at(s: Seq<SongView>, idx: Seq<usize>) -> Seq<Map<u8, Seq<char>>> {
    Seq::new(idx.len(), |k: int| s[idx[k] as int].values)
}

/// The songs at positions `idx`, in that order.
pub open spec fn pick(s: Seq<SongView>, idx: Seq<usize>) -> Seq<SongView> {
    Seq::new(idx.len(), |k: int| s[idx[k] as int])
}

/// The comparators order these tag values as a total order does: any two compare
/// oppositely both ways, and "not after" is transitive.
pub open spec fn orders_totally(cs: Seq<Comparator>, vals: Seq<Map<u8, Seq<char>>>) -> bool {
    &&& forall|i: int, j: int|
        0 <= i < vals.len() && 0 <= j < vals.len() ==> #[trigger] chain_order(cs, vals[i], vals[j])
            == reversed_order(chain_order(cs, vals[j], vals[i]))
    &&& forall|i: int, j: int, k: int|
        0 <= i < vals.len() && 0 <= j < vals.len() && 0 <= k < vals.len() && #[trigger] chain_order(
            cs,
            vals[i],
            vals[j],
        ) != Ordering::Greater && #[trigger] chain_order(cs, vals[j], vals[k]) != Ordering::Greater
            ==> chain_order(cs, vals[i], vals[k]) != Ordering::Greater
}

/// No song comes after one that the comparators put after it.
pub open spec fn sorted_by_comparators(cs: Seq<Comparator>, vals: Seq<Map<u8, Seq<char>>>) -> bool {
    forall|i: int, j: int| 0 <= i < j < vals.len() ==> #[trigger] chain_order(cs, vals[j], vals[i]) != Ordering::Less
}

/// Sorts positions of rows by the comparators, applied to the rows' songs.
///
/// Trusted: `rayon`'s `par_sort_unstable_by` only reorders the slice; when the
/// comparator orders its items totally, the result is sorted by it. Which of two
/// items that compare equal comes first is left open.
#[verifier::external_body]
fn sort_by_comparators(idx: &mut Vec<usize>, rows: &Vec<DataRow>, cs: &Vec<Comparator>)
    requires
        forall|k: int| 0 <= k < old(idx)@.len() ==> old(idx)@[k] < rows@.len(),
    ensures
        final(idx)@.to_multiset() == old(idx)@.to_multiset(),
        forall|k: int| 0 <= k < final(idx)@.len() ==> final(idx)@[k] < rows@.len(),
        orders_totally(cs@, values_at(songs_of(rows@), old(idx)@)) ==> sorted_by_comparators(
            cs@,
            values_at(songs_of(rows@), final(idx)@),
        ),
{
    idx.par_sort_unstable_by(|a, b| compare_songs(cs, &rows[*a].song.metadata, &rows[*b].song.metadata));
}

/// The positions of the songs that pass every filter, in order.
pub open spec fn passing_indices(s: Seq<SongView>, filters: Seq<RegexFilter>) -> Seq<usize>
    decreases s.len(),
{
    if s.len() == 0 {
        Seq::empty()
    } else {
        let r = passing_indices(s.drop_last(), filters);
        if all_pass(filters, s.last().values) {
            r.push((s.len() - 1) as usize)
        } else {
            r
        }
    }
}

/// A tag's value, if the song has one.
pub open spec fn opt_value(values: Map<u8, Seq<char>>, t: TagKey) -> Option<Seq<char>> {
    let k = tag_index(t.key);
    if values.contains_key(k) {
        Some(values[k])
    } else {
        None
    }
}

/// The values of the grouping tags: what a group shares.
pub open spec fn group_key(values: Map<u8, Seq<char>>, group_by: Seq<TagKey>) -> Seq<Option<Seq<char>>> {
    Seq::new(group_by.len(), |i: int| opt_value(values, group_by[i]))
}

/// An optional text as JSON: the text, or null.
pub open spec fn opt_json(v: Option<Seq<char>>) -> JsonView {
    match v {
        Some(s) => JsonView::Str(s),
        None => JsonView::Null,
    }
}

/// The line of a song in an answer to `select`: the values of `tags`, then its path.
pub open spec fn song_row(song: SongView, tags: Seq<TagKey>) -> JsonView {
    JsonView::Array(
        Seq::new(tags.len(), |i: int| tag_value_view(song.values, tags[i])).push(JsonView::Str(song.path)),
    )
}

/// The position of the first group with key `k`.
pub open spec fn key_pos(g: Seq<(Seq<Option<Seq<char>>>, Seq<JsonView>)>, k: Seq<Option<Seq<char>>>) -> Option<
    int,
>
    decreases g.len(),
{
    if g.len() == 0 {
        None
    } else if g[0].0 == k {
        Some(0)
    } else {
        match key_pos(g.drop_first(), k) {
            Some(i) => Some(i + 1),
            None => None,
        }
    }
}

/// The songs grouped by the values of `group_by`, groups in the order in which
/// they first appear, each with the lines of its songs in order.
pub open spec fn groups_of(order: Seq<SongView>, tags: Seq<TagKey>, group_by: Seq<TagKey>) -> Seq<
    (Seq<Option<Seq<char>>>, Seq<JsonView>),
>
    decreases order.len(),
{
    if order.len() == 0 {
        Seq::empty()
    } else {
        let g = groups_of(order.drop_last(), tags, group_by);
        let k = group_key(order.last().values, group_by);
        let d = song_row(order.last(), tags);
        match key_pos(g, k) {
            Some(i) => g.update(i, (k, g[i].1.push(d))),
            None => g.push((k, seq![d])),
        }
    }
}

/// The fields naming the values a group shares.
pub open spec fn key_fields(group_by: Seq<TagKey>, key: Seq<Option<Seq<char>>>) -> Seq<(Seq<char>, JsonView)>
    decreases group_by.len(),
{
    if group_by.len() == 0 {
        Seq::empty()
    } else {
        object_insert(
            key_fields(group_by.drop_last(), key),
            tag_name(group_by.last().key),
            opt_json(key[group_by.len() - 1]),
        )
    }
}

/// The groups of an answer to `select`: per group, the shared values and `data`,
/// the lines of its songs.
pub open spec fn select_values(order: Seq<SongView>, tags: Seq<TagKey>, group_by: Seq<TagKey>) -> Seq<JsonView> {
    let g = groups_of(order, tags, group_by);
    Seq::new(
        g.len(),
        |i: int| JsonView::Object(object_insert(key_fields(group_by, g[i].0), "data"@, JsonView::Array(g[i].1))),
    )
}


/// How many song lines the groups hold in all.
pub open spec fn lines_in_groups(g: Seq<(Seq<Option<Seq<char>>>, Seq<JsonView>)>) -> nat
    decreases g.len(),
{
    if g.len() == 0 {
        0
    } else {
        lines_in_groups(g.drop_last()) + g.last().1.len()
    }
}

proof fn lemma_lines_in_groups_update(
    g: Seq<(Seq<Option<Seq<char>>>, Seq<JsonView>)>,
    i: int,
    k: Seq<Option<Seq<char>>>,
    d: JsonView,
)
    requires
        0 <= i < g.len(),
    ensures
        lines_in_groups(g.update(i, (k, g[i].1.push(d)))) == lines_in_groups(g) + 1,
    decreases g.len(),
{
    let u = g.update(i, (k, g[i].1.push(d)));
    if i == g.len() - 1 {
        assert(u.drop_last() =~= g.drop_last());
    } else {
        lemma_lines_in_groups_update(g.drop_last(), i, k, d);
        assert(u.drop_last() =~= g.drop_last().update(i, (k, g[i].1.push(d))));
    }
}

/// Grouping puts every song in one group: the groups hold as many lines as there
/// are songs.
pub proof fn lemma_groups_hold_every_song(order: Seq<SongView>, tags: Seq<TagKey>, group_by: Seq<TagKey>)
    ensures
        lines_in_groups(groups_of(order, tags, group_by)) == order.len(),
    decreases order.len(),
{
    if order.len() > 0 {
        lemma_groups_hold_every_song(order.drop_last(), tags, group_by);
        let g = groups_of(order.drop_last(), tags, group_by);
        let k = group_key(order.last().values, group_by);
        let d = song_row(order.last(), tags);
        match key_pos(g, k) {
            Some(i) => {
                lemma_key_pos_in_range(g, k);
                lemma_lines_in_groups_update(g, i, k, d);
            },
            None => {
                assert(g.push((k, seq![d])).drop_last() =~= g);
            },
        }
    }
}

proof fn lemma_key_pos_in_range(g: Seq<(Seq<Option<Seq<char>>>, Seq<JsonView>)>, k: Seq<Option<Seq<char>>>)
    ensures
        key_pos(g, k) matches Some(i) ==> 0 <= i < g.len(),
    decreases g.len(),
{
    if g.len() > 0 && g[0].0 != k {
        lemma_key_pos_in_range(g.drop_first(), k);
    }
}

/// The plain values of optional strings.
pub open spec fn opt_views(v: Seq<Option<String>>) -> Seq<Option<Seq<char>>> {
    Seq::new(
        v.len(),
        |i: int|
            match v[i] {
                Some(s) => Some(s@),
                None => None,
            },
    )
}

/// The plain values of groups.
pub open spec fn groups_view(keys: Seq<Vec<Option<String>>>, datas: Seq<Vec<Json>>) -> Seq<
    (Seq<Option<Seq<char>>>, Seq<JsonView>),
> {
    Seq::new(keys.len(), |i: int| (opt_views(keys[i]@), items_view(datas[i]@)))
}

proof fn lemma_key_pos(g: Seq<(Seq<Option<Seq<char>>>, Seq<JsonView>)>, k: Seq<Option<Seq<char>>>, i: int)
    requires
        0 <= i <= g.len(),
        forall|j: int| 0 <= j < i ==> g[j].0 != k,
        i < g.len() ==> g[i].0 == k,
    ensures
        key_pos(g, k) == if i < g.len() {
            Some(i)
        } else {
            None::<int>
        },
    decreases g.len(),
{
    if g.len() > 0 && i > 0 {
        let t = g.drop_first();
        assert forall|j: int| 0 <= j < i - 1 implies t[j].0 != k by {
            assert(t[j] == g[j + 1]);
        }
        lemma_key_pos(t, k, i - 1);
    }
}

/// The values of the grouping tags for a song.
fn group_key_of(m: &Metadata, group_by: &Vec<TagKey>) -> (r: Vec<Option<String>>)
    ensures
        opt_views(r@) == group_key(m.values(), group_by@),
{
    let mut r: Vec<Option<String>> = Vec::new();
    let mut i: usize = 0;
    while i < group_by.len()
        invariant
            i <= group_by@.len(),
            opt_views(r@) == group_key(m.values(), group_by@).take(i as int),
        decreases group_by@.len() - i,
    {
        let v = match m.get(&group_by[i]) {
            Some(s) => {
                let x = String::from_str(s);
                assert(Some(x@) == opt_value(m.values(), group_by@[i as int]));
                Some(x)
            },
            None => None,
        };
        let ghost before = r@;
        r.push(v);
        assert(opt_views(r@) =~= opt_views(before).push(opt_value(m.values(), group_by@[i as int])));
        assert(opt_views(r@) =~= group_key(m.values(), group_by@).take(i as int + 1)) by {
            assert(opt_views(before) =~= group_key(m.values(), group_by@).take(i as int));
        }
        i = i + 1;
    }
    assert(group_key(m.values(), group_by@).take(group_by@.len() as int) =~= group_key(m.values(), group_by@));
    r
}

/// Whether two keys hold the same values.
fn keys_equal(a: &Vec<Option<String>>, b: &Vec<Option<String>>) -> (r: bool)
    ensures
        r == (opt_views(a@) == opt_views(b@)),
{
    if a.len() != b.len() {
        assert(opt_views(a@).len() != opt_views(b@).len());
        return false;
    }
    let mut i: usize = 0;
    while i < a.len()
        invariant
            i <= a@.len(),
            a@.len() == b@.len(),
            forall|j: int| 0 <= j < i ==> opt_views(a@)[j] == opt_views(b@)[j],
        decreases a@.len() - i,
    {
        let same = match (&a[i], &b[i]) {
            (Some(x), Some(y)) => str_eq(x.as_str(), y.as_str()),
            (None, None) => true,
            _ => false,
        };
        if !same {
            assert(opt_views(a@)[i as int] != opt_views(b@)[i as int]);
            return false;
        }
        i = i + 1;
    }
    assert(opt_views(a@) =~= opt_views(b@));
    true
}

/// The line of a song in an answer to `select`.
fn song_row_of(song: &Song, tags: &Vec<TagKey>) -> (r: Json)
    ensures
        r@ == song_row(song@, tags@),
{
    let mut items: Vec<Json> = Vec::new();
    let mut i: usize = 0;
    while i < tags.len()
        invariant
            i <= tags@.len(),
            items_view(items@) == Seq::new(i as nat, |k: int| tag_value_view(song@.values, tags@[k])),
        decreases tags@.len() - i,
    {
        let v = tag_value_json(&song.metadata, &tags[i]);
        let ghost before = items@;
        items.push(v);
        assert(items_view(items@) =~= Seq::new(i as nat + 1, |k: int| tag_value_view(song@.values, tags@[k]))) by {
            assert(items_view(items@) =~= items_view(before).push(v@));
        }
        i = i + 1;
    }
    let ghost before = items@;
    items.push(Json::Str(song.path.clone()));
    assert(items_view(items@) =~= items_view(before).push(JsonView::Str(song.path@)));
    let r = Json::Array(items);
    proof {
        lemma_array_view(&r, items);
    }
    r
}

/// The fields naming the values a group shares.
fn key_fields_of(group_by: &Vec<TagKey>, key: &Vec<Option<String>>) -> (r: Vec<(String, Json)>)
    requires
        key@.len() == group_by@.len(),
    ensures
        fields_view(r@) == key_fields(group_by@, opt_views(key@)),
{
    let mut obj: Vec<(String, Json)> = Vec::new();
    let mut i: usize = 0;
    assert(fields_view(obj@) =~= Seq::<(Seq<char>, JsonView)>::empty());
    while i < group_by.len()
        invariant
            i <= group_by@.len(),
            key@.len() == group_by@.len(),
            fields_view(obj@) == key_fields(group_by@.take(i as int), opt_views(key@)),
        decreases group_by@.len() - i,
    {
        let name = group_by[i].name();
        let value = match &key[i] {
            Some(s) => Json::Str(s.clone()),
            None => Json::Null,
        };
        assert(value@ == opt_json(opt_views(key@)[i as int]));
        insert_field(&mut obj, name.as_str(), value);
        assert(group_by@.take(i + 1).drop_last() =~= group_by@.take(i as int));
        i = i + 1;
    }
    assert(group_by@.take(group_by@.len() as int) =~= group_by@);
    obj
}


/// `fields` answers a `select` over the songs `s`, with `order` the positions of the
/// songs that pass the filters after sorting: they are the passing songs; sorted
/// when the comparators order them totally; grouped and given as `select` gives
/// them.
pub open spec fn is_select_answer(
    s: Seq<SongView>,
    tags: Seq<TagKey>,
    filters: Seq<RegexFilter>,
    group_by: Seq<TagKey>,
    cs: Seq<Comparator>,
    order: Seq<usize>,
    fields: Seq<(Seq<char>, JsonView)>,
) -> bool {
    &&& order.to_multiset() == passing_indices(s, filters).to_multiset()
    &&& orders_totally(cs, values_at(s, passing_indices(s, filters))) ==> sorted_by_comparators(
        cs,
        values_at(s, order),
    )
    &&& fields == object_insert(
        ok_fields(),
        "values"@,
        JsonView::Array(select_values(pick(s, order), tags, group_by)),
    )
}


/// The text of a playlist file that lists `paths`, each made relative to the music
/// directory and ended by `\n`.
pub open spec fn playlist_text(music_dir: Seq<char>, paths: Seq<Seq<char>>) -> Seq<char>
    decreases paths.len(),
{
    if paths.len() == 0 {
        Seq::empty()
    } else {
        playlist_text(music_dir, paths.drop_last()) + strip_dir(music_dir, paths.last()).unwrap()
            + seq!['\n']
    }
}


/// The paths made relative to the music directory.
pub open spec fn relative_paths(music_dir: Seq<char>, paths: Seq<Seq<char>>) -> Seq<Seq<char>> {
    Seq::new(paths.len(), |i: int| strip_dir(music_dir, paths[i]).unwrap())
}

/// The text of a saved playlist is its relative paths, each followed by `\n`.
pub proof fn lemma_playlist_text_terminated(music_dir: Seq<char>, paths: Seq<Seq<char>>)
    ensures
        playlist_text(music_dir, paths) == terminated(relative_paths(music_dir, paths)),
    decreases paths.len(),
{
    if paths.len() > 0 {
        lemma_playlist_text_terminated(music_dir, paths.drop_last());
        assert(relative_paths(music_dir, paths).drop_last() =~= relative_paths(music_dir, paths.drop_last()));
    } else {
        assert(relative_paths(music_dir, paths) =~= Seq::<Seq<char>>::empty());
    }
}

/// A queue saved as a playlist file is read back as the same songs, made relative
/// to the music directory, as long as none of these holds a line break, ends with a
/// carriage return or starts with `#`.
pub proof fn lemma_saved_playlist_reads_back(music_dir: Seq<char>, paths: Seq<Seq<char>>)
    requires
        forall|i: int|
            0 <= i < paths.len() ==> {
                let rel = #[trigger] relative_paths(music_dir, paths)[i];
                no_newline(rel) && no_trailing_cr(rel) && !is_comment(rel)
            },
    ensures
        playlist_songs(playlist_text(music_dir, paths)) == relative_paths(music_dir, paths),
{
    let rels = relative_paths(music_dir, paths);
    lemma_playlist_text_terminated(music_dir, paths);
    lemma_lines_of_terminated(rels);
    lemma_no_comments_kept(rels);
}

/// The paths of queue entries.
pub open spec fn entry_paths(entries: Seq<Entry>) -> Seq<Seq<char>> {
    Seq::new(entries.len(), |i: int| entries[i].path@)
}

/// The message for a song that the database does not hold.
pub open spec fn song_not_found(path: Seq<char>) -> Seq<char> {
    "song `"@ + path + "` not found in the database"@
}


/// The directories that an ignore file in `root` lists: each line, taken from
/// `root` unless it is absolute.
pub open spec fn ignored_dirs(root: Seq<char>, content: Seq<char>) -> Seq<Seq<char>> {
    let ls = crate::text::lines_of(content);
    Seq::new(ls.len(), |i: int| abs_path(root, ls[i]))
}

/// The directories that the ignore file `content` in `root` lists.
pub fn ignored_dirs_of(root: &str, content: &str) -> (r: Vec<String>)
    ensures
        views_of(r@) == ignored_dirs(root@, content@),
{
    let ls = crate::text::lines(content);
    let mut r: Vec<String> = Vec::new();
    let mut i: usize = 0;
    while i < ls.len()
        invariant
            i <= ls@.len(),
            views_of(ls@) == crate::text::lines_of(content@),
            views_of(r@) == ignored_dirs(root@, content@).take(i as int),
        decreases ls@.len() - i,
    {
        let p = join_path(root, ls[i].as_str());
        let ghost before = r@;
        r.push(p);
        assert(views_of(r@) =~= views_of(before).push(p@));
        assert(ignored_dirs(root@, content@).take(i + 1) =~= ignored_dirs(root@, content@).take(i as int).push(p@));
        i = i + 1;
    }
    assert(ignored_dirs(root@, content@).take(ls@.len() as int) =~= ignored_dirs(root@, content@));
    r
}

/// The test "no song of `k` has this song's path".
pub open spec fn path_not_in(k: Seq<SongView>) -> spec_fn(SongView) -> bool {
    |x: SongView| !has_path(k, x.path)
}

/// Keeping the songs that pass a test keeps them as a multiset does.
proof fn lemma_filter_to_multiset(s: Seq<SongView>, pred: spec_fn(SongView) -> bool)
    ensures
        s.filter(pred).to_multiset() =~= s.to_multiset().filter(pred),
    decreases s.len(),
{
    broadcast use group_to_multiset_ensures;
    broadcast use vstd::multiset::group_multiset_axioms;

    if s.len() == 0 {
        assert(s.filter(pred) =~= s);
        assert(s.to_multiset() =~= Multiset::empty());
    } else {
        let t = s.drop_last();
        let x = s.last();
        lemma_filter_to_multiset(t, pred);
        t.lemma_filter_push(x, pred);
        assert(t.push(x) =~= s);
        assert(s.to_multiset() =~= t.to_multiset().insert(x));
        if pred(x) {
            assert(s.filter(pred).to_multiset() =~= t.filter(pred).to_multiset().insert(x));
        } else {
            assert(s.filter(pred) == t.filter(pred));
        }
    }
}

/// An update adds no song at a path that a kept song already has: a file read again
/// after a change stays once, with the metadata read from it.
pub proof fn lemma_update_does_not_double(kept: Seq<SongView>, added: Seq<SongView>)
    ensures
        forall|x: SongView|
            #[trigger] added.to_multiset().filter(path_not_in(kept)).contains(x) ==> !has_path(kept, x.path),
{
    broadcast use vstd::multiset::group_multiset_axioms;

    assert forall|x: SongView|
        #[trigger] added.to_multiset().filter(path_not_in(kept)).contains(x) implies !has_path(kept, x.path) by {
        assert(added.to_multiset().filter(path_not_in(kept)).count(x) > 0);
    }
}

/// Keeping the songs that pass a test keeps their paths distinct.
proof fn lemma_filter_paths_distinct(s: Seq<SongView>, pred: spec_fn(SongView) -> bool)
    requires
        paths_distinct(s),
    ensures
        paths_distinct(s.filter(pred)),
    decreases s.len(),
{
    if s.len() > 0 {
        let t = s.drop_last();
        let x = s.last();
        assert(paths_distinct(t)) by {
            assert forall|a: int, b: int| 0 <= a < t.len() && 0 <= b < t.len() && a != b implies #[trigger] t[a].path
                != #[trigger] t[b].path by {
                assert(t[a] == s[a] && t[b] == s[b]);
            }
        }
        lemma_filter_paths_distinct(t, pred);
        t.lemma_filter_push(x, pred);
        assert(t.push(x) =~= s);
        if pred(x) {
            let f = t.filter(pred);
            let g = f.push(x);
            assert forall|a: int, b: int| 0 <= a < g.len() && 0 <= b < g.len() && a != b implies #[trigger] g[a].path
                != #[trigger] g[b].path by {
                if a < f.len() && b < f.len() {
                    assert(g[a] == f[a] && g[b] == f[b]);
                } else if a < f.len() {
                    assert(f.contains(f[a]));
                    t.lemma_filter_contains_rev(pred, f[a]);
                    let j = choose|j: int| 0 <= j < t.len() && t[j] == f[a];
                    assert(s[j] == t[j] && g[a] == f[a] && g[b] == x);
                    assert(s[s.len() - 1] == x);
                } else {
                    assert(f.contains(f[b]));
                    t.lemma_filter_contains_rev(pred, f[b]);
                    let j = choose|j: int| 0 <= j < t.len() && t[j] == f[b];
                    assert(s[j] == t[j] && g[b] == f[b] && g[a] == x);
                    assert(s[s.len() - 1] == x);
                }
            }
        }
    }
}

/// Where the songs after an update come from: every path added is there, and every
/// song there is a kept one or an added one.
proof fn lemma_songs_after_update(
    given: Seq<SongView>,
    sa: Seq<SongView>,
    k: Seq<SongView>,
    pred: spec_fn(SongView) -> bool,
    fs: Seq<SongView>,
    f: Seq<SongView>,
    fin: Seq<SongView>,
)
    requires
        sa.to_multiset() == given.to_multiset(),
        pred == path_not_in(k),
        fs == sa.filter(pred),
        forall|t: int| 0 <= t < f.len() ==> fs.contains(#[trigger] f[t]),
        forall|j: int| 0 <= j < fs.len() ==> has_path(f, #[trigger] fs[j].path),
        fin.to_multiset() == k.to_multiset().add(f.to_multiset()),
    ensures
        forall|j: int| 0 <= j < given.len() ==> has_path(fin, #[trigger] given[j].path),
        forall|t: int| 0 <= t < fin.len() ==> k.contains(#[trigger] fin[t]) || given.contains(fin[t]),
{
    broadcast use vstd::seq_lib::to_multiset_contains;
    broadcast use vstd::multiset::group_multiset_axioms;

    assert forall|j: int| 0 <= j < given.len() implies has_path(fin, #[trigger] given[j].path) by {
        let y = given[j];
        assert(given.contains(y));
        assert(sa.to_multiset().count(y) > 0);
        assert(sa.contains(y));
        let x = choose|x: int| 0 <= x < sa.len() && sa[x] == y;
        if has_path(k, y.path) {
            let a = choose|a: int| 0 <= a < k.len() && #[trigger] k[a].path == y.path;
            assert(k.contains(k[a]));
            assert(fin.to_multiset().count(k[a]) > 0);
            assert(fin.contains(k[a]));
            let b = choose|b: int| 0 <= b < fin.len() && fin[b] == k[a];
            assert(fin[b].path == y.path);
        } else {
            sa.lemma_filter_contains(pred, x);
            assert(fs.contains(y));
            let c = choose|c: int| 0 <= c < fs.len() && fs[c] == y;
            assert(has_path(f, fs[c].path));
            let d = choose|d: int| 0 <= d < f.len() && #[trigger] f[d].path == fs[c].path;
            assert(f.contains(f[d]));
            assert(fin.to_multiset().count(f[d]) > 0);
            assert(fin.contains(f[d]));
            let b = choose|b: int| 0 <= b < fin.len() && fin[b] == f[d];
            assert(fin[b].path == y.path);
        }
    }
    assert forall|t: int| 0 <= t < fin.len() implies k.contains(#[trigger] fin[t]) || given.contains(fin[t]) by {
        let z = fin[t];
        assert(fin.contains(z));
        assert(fin.to_multiset().count(z) > 0);
        if !k.contains(z) {
            assert(k.to_multiset().count(z) == 0);
            assert(f.to_multiset().count(z) > 0);
            assert(f.contains(z));
            let d = choose|d: int| 0 <= d < f.len() && f[d] == z;
            assert(fs.contains(f[d]));
            sa.lemma_filter_contains_rev(pred, z);
            assert(sa.to_multiset().count(z) > 0);
            assert(given.to_multiset().count(z) > 0);
        }
    }
}

/// The rows whose song's path no row of `kept` has, in order.
fn fresh_rows(kept: &Vec<DataRow>, rows: Vec<DataRow>) -> (r: Vec<DataRow>)
    requires
        sorted_by_path(songs_of(kept@)),
        sorted_by_path(songs_of(rows@)),
    ensures
        songs_of(r@) == songs_of(rows@).filter(path_not_in(songs_of(kept@))),
        sorted_by_path(songs_of(r@)),
{
    let ghost s = songs_of(rows@);
    let ghost k = songs_of(kept@);
    let ghost pred = path_not_in(k);
    let n = rows.len();
    let mut rr = reversed(rows);
    let mut out: Vec<DataRow> = Vec::new();
    let mut i: usize = 0;
    assert(s.take(0) =~= Seq::<SongView>::empty());
    assert(songs_of(out@) =~= Seq::<SongView>::empty());
    while i < n
        invariant
            n == s.len(),
            i <= n,
            k == songs_of(kept@),
            pred == path_not_in(k),
            sorted_by_path(s),
            sorted_by_path(k),
            rr@.len() == n - i,
            forall|t: int| 0 <= t < rr@.len() ==> #[trigger] rr@[t].song@ == s[n - 1 - t],
            songs_of(out@) == s.take(i as int).filter(pred),
            sorted_by_path(songs_of(out@)),
        decreases n - i,
    {
        assert(rr@[rr@.len() - 1].song@ == s[i as int]);
        let row = rr.pop().unwrap();
        let found = if kept.len() == 0 {
            false
        } else {
            match binary_search_by_path(kept, row.song.path.as_str()) {
                Some(j) => {
                    assert(k[j as int].path == s[i as int].path);
                    true
                },
                None => false,
            }
        };
        let ghost before = songs_of(out@);
        proof {
            assert(s.take(i + 1).drop_last() =~= s.take(i as int));
            assert(s.take(i + 1).last() == s[i as int]);
            s.take(i as int).lemma_filter_push(s[i as int], pred);
            assert(s.take(i as int).push(s[i as int]) =~= s.take(i + 1));
            assert(found == has_path(k, s[i as int].path));
        }
        if !found {
            proof {
                assert forall|t: int| 0 <= t < before.len() implies path_le(#[trigger] before[t].path, s[i as int].path) by {
                    assert(before.contains(before[t]));
                    s.take(i as int).lemma_filter_contains_rev(pred, before[t]);
                    let j = choose|j: int| 0 <= j < i && s.take(i as int)[j] == before[t];
                    assert(s[j] == before[t]);
                }
            }
            out.push(row);
            assert(songs_of(out@) =~= before.push(s[i as int]));
        }
        i = i + 1;
    }
    assert(s.take(n as int) =~= s);
    out
}

/// The paths with each kept once, at the place where it first occurs.
pub open spec fn first_occurrences(s: Seq<Seq<char>>) -> Seq<Seq<char>>
    decreases s.len(),
{
    if s.len() == 0 {
        s
    } else {
        let d = first_occurrences(s.drop_last());
        if d.contains(s.last()) {
            d
        } else {
            d.push(s.last())
        }
    }
}

/// Keeping each path once, at its first place, leaves no path twice and loses none.
pub proof fn lemma_first_occurrences(s: Seq<Seq<char>>)
    ensures
        first_occurrences(s).no_duplicates(),
        forall|x: Seq<char>| #[trigger] first_occurrences(s).contains(x) <==> s.contains(x),
    decreases s.len(),
{
    if s.len() > 0 {
        let t = s.drop_last();
        lemma_first_occurrences(t);
        let d = first_occurrences(t);
        assert forall|x: Seq<char>| #[trigger] first_occurrences(s).contains(x) <==> s.contains(x) by {
            if s.contains(x) {
                let k = choose|k: int| 0 <= k < s.len() && s[k] == x;
                if k < s.len() - 1 {
                    assert(t[k] == x);
                    assert(t.contains(x));
                }
            }
            if t.contains(x) {
                let k = choose|k: int| 0 <= k < t.len() && t[k] == x;
                assert(s[k] == x);
            }
            if !d.contains(s.last()) {
                if d.push(s.last()).contains(x) && x != s.last() {
                    let k = choose|k: int| 0 <= k < d.push(s.last()).len() && d.push(s.last())[k] == x;
                    assert(d[k] == x);
                }
                if d.contains(x) {
                    let k = choose|k: int| 0 <= k < d.len() && d[k] == x;
                    assert(d.push(s.last())[k] == x);
                }
                assert(d.push(s.last())[d.len() as int] == s.last());
            }
        }
        if !d.contains(s.last()) {
            let e = d.push(s.last());
            assert forall|a: int, b: int| 0 <= a < e.len() && 0 <= b < e.len() && a != b implies e[a] != e[b] by {
                if a < d.len() && b < d.len() {
                } else if a < d.len() {
                    assert(d.contains(d[a]));
                } else {
                    assert(d.contains(d[b]));
                }
            }
        }
    }
}

/// The playlist paths, each kept once at its first place.
fn distinct_paths(v: Vec<String>) -> (r: Vec<String>)
    ensures
        views_of(r@) == first_occurrences(views_of(v@)),
{
    let mut out: Vec<String> = Vec::new();
    let n = v.len();
    let mut i: usize = 0;
    assert(views_of(v@).take(0) =~= Seq::<Seq<char>>::empty());
    assert(views_of(out@) =~= Seq::<Seq<char>>::empty());
    while i < n
        invariant
            n == v@.len(),
            i <= n,
            views_of(out@) == first_occurrences(views_of(v@).take(i as int)),
        decreases n - i,
    {
        let mut found = false;
        let mut j: usize = 0;
        while j < out.len()
            invariant
                i < n,
                n == v@.len(),
                j <= out@.len(),
                found <==> exists|k: int| 0 <= k < j && out@[k]@ == v@[i as int]@,
            decreases out@.len() - j,
        {
            if str_eq(out[j].as_str(), v[i].as_str()) {
                found = true;
            }
            j = j + 1;
        }
        let ghost d = views_of(out@);
        proof {
            let t = views_of(v@).take(i + 1);
            assert(t.drop_last() =~= views_of(v@).take(i as int));
            assert(t.last() == v@[i as int]@);
            if found {
                let k = choose|k: int| 0 <= k < out@.len() && out@[k]@ == v@[i as int]@;
                assert(d[k] == v@[i as int]@);
            } else {
                assert forall|k: int| 0 <= k < d.len() implies d[k] != v@[i as int]@ by {
                    assert(d[k] == out@[k]@);
                }
            }
        }
        if !found {
            let p = v[i].clone();
            out.push(p);
            assert(views_of(out@) =~= d.push(v@[i as int]@));
        }
        i = i + 1;
    }
    assert(views_of(v@).take(n as int) =~= views_of(v@));
    out
}

/// The music collection: its songs sorted by path, and the playlists found.
#[derive(Debug)]
pub struct Database {
    music_dir: String,
    playlist_dir: String,
    data_rows: Vec<DataRow>,
    playlists: Vec<String>,
}

impl Database {
    /// The directory of the collection.
    pub closed spec fn music_dir(&self) -> Seq<char> {
        self.music_dir@
    }

    /// The directory of the playlists.
    pub closed spec fn playlist_dir(&self) -> Seq<char> {
        self.playlist_dir@
    }

    /// The songs, in the order of the rows.
    pub closed spec fn songs(&self) -> Seq<SongView> {
        songs_of(self.data_rows@)
    }

    /// The paths of the playlists.
    pub closed spec fn playlist_paths(&self) -> Seq<Seq<char>> {
        views_of(self.playlists@)
    }

    /// The songs are sorted by path, no two songs share a path, and no playlist
    /// path occurs twice.
    pub open spec fn wf(&self) -> bool {
        &&& sorted_by_path(self.songs())
        &&& paths_distinct(self.songs())
        &&& self.playlist_paths().no_duplicates()
    }

    /// The directory of the playlists: the one given, or `playlists` under the
    /// music directory.
    pub fn playlist_dir_for(music_dir: &str, playlist_dir: Option<String>) -> (r: String)
        ensures
            r@ == match playlist_dir {
                Some(p) => p@,
                None => default_playlist_dir(music_dir@),
            },
    {
        match playlist_dir {
            Some(p) => p,
            None => {
                let r = join_path(music_dir, "playlists");
                proof {
                    reveal_strlit("playlists");
                }
                r
            },
        }
    }

    /// A database of `songs` (in any order) and `playlists`. Of songs that share a
    /// path one is kept.
    pub fn new(music_dir: String, playlist_dir: String, songs: Vec<Song>, playlists: Vec<String>) -> (db:
        Self)
        ensures
            db.wf(),
            db.music_dir() == music_dir@,
            db.playlist_dir() == playlist_dir@,
            paths_distinct(song_views(songs@)) ==> db.songs().to_multiset() == song_views(songs@).to_multiset(),
            forall|k: int| 0 <= k < db.songs().len() ==> song_views(songs@).contains(#[trigger] db.songs()[k]),
            forall|j: int|
                0 <= j < songs@.len() ==> has_path(db.songs(), #[trigger] song_views(songs@)[j].path),
            db.playlist_paths() == first_occurrences(views_of(playlists@)),
    {
        let ghost given_songs = song_views(songs@);
        let sorted = to_data_rows(songs);
        let ghost ss = songs_of(sorted@);
        let data_rows = dedup_rows(sorted);
        proof {
            broadcast use vstd::seq_lib::to_multiset_contains;

            if paths_distinct(given_songs) {
                lemma_paths_distinct_multiset(given_songs, ss);
            }
            let d = songs_of(data_rows@);
            assert forall|k: int| 0 <= k < d.len() implies given_songs.contains(#[trigger] d[k]) by {
                assert(ss.contains(d[k]));
                assert(ss.to_multiset().count(d[k]) > 0);
            }
            assert forall|j: int| 0 <= j < given_songs.len() implies has_path(d, #[trigger] given_songs[j].path) by {
                assert(given_songs.contains(given_songs[j]));
                assert(given_songs.to_multiset().count(given_songs[j]) > 0);
                assert(ss.contains(given_songs[j]));
                let t = choose|t: int| 0 <= t < ss.len() && ss[t] == given_songs[j];
                assert(has_path(d, ss[t].path));
            }
        }
        let ghost given = views_of(playlists@);
        let playlists = distinct_paths(playlists);
        proof {
            lemma_first_occurrences(given);
        }
        Database { music_dir, playlist_dir, data_rows, playlists }
    }

    /// How many songs the database holds.
    pub fn song_count(&self) -> (r: usize)
        ensures
            r == self.songs().len(),
    {
        self.data_rows.len()
    }

    /// Applies what an update found: `checks` says, row by row, what became of each
    /// song's file; `added` are the songs of the files that appeared (`found` files
    /// were seen, some of which may not have decoded); `playlists` are the playlist
    /// files now present. Answers with the number of files found and of songs
    /// removed.
    pub fn apply_update(
        &mut self,
        checks: Vec<RowCheck>,
        added: Vec<Song>,
        found: usize,
        playlists: Vec<String>,
    ) -> (r: Response)
        requires
            old(self).wf(),
            checks@.len() == old(self).songs().len(),
        ensures
            final(self).wf(),
            final(self).music_dir() == old(self).music_dir(),
            final(self).playlist_dir() == old(self).playlist_dir(),
            paths_distinct(song_views(added@)) ==> final(self).songs().to_multiset() == kept_songs(
                old(self).songs(),
                check_views(checks@),
            ).to_multiset().add(
                song_views(added@).to_multiset().filter(path_not_in(kept_songs(old(self).songs(), check_views(checks@)))),
            ),
            forall|j: int| 0 <= j < added@.len() ==> has_path(final(self).songs(), #[trigger] song_views(added@)[j].path),
            forall|t: int|
                0 <= t < final(self).songs().len() ==> kept_songs(old(self).songs(), check_views(checks@)).contains(
                    #[trigger] final(self).songs()[t],
                ) || song_views(added@).contains(final(self).songs()[t]),
            final(self).playlist_paths() == first_occurrences(views_of(playlists@)),
            kept_songs(old(self).songs(), check_views(checks@)).len() <= old(self).songs().len(),
            r@ == update_fields(
                found as nat,
                (old(self).songs().len() - kept_songs(old(self).songs(), check_views(checks@)).len()) as nat,
            ),
    {
        let mut rows: Vec<DataRow> = Vec::new();
        std::mem::swap(&mut rows, &mut self.data_rows);
        let ghost s = songs_of(rows@);
        let ghost c = check_views(checks@);
        let n = rows.len();
        let mut rr = reversed(rows);
        let mut rc = reversed(checks);
        let mut kept: Vec<DataRow> = Vec::new();
        let ghost mut last_kept: int = -1;
        let mut i: usize = 0;
        assert(s.take(0) =~= Seq::<SongView>::empty());
        while i < n
            invariant
                n == s.len(),
                c.len() == n,
                i <= n,
                sorted_by_path(s),
                rr@.len() == n - i,
                rc@.len() == n - i,
                forall|k: int| 0 <= k < rr@.len() ==> #[trigger] rr@[k].song@ == s[n - 1 - k],
                forall|k: int| 0 <= k < rc@.len() ==> #[trigger] rc@[k]@ == c[n - 1 - k],
                songs_of(kept@) == kept_songs(s.take(i as int), c.take(i as int)),
                kept@.len() <= i,
                sorted_by_path(songs_of(kept@)),
                kept@.len() > 0 ==> (0 <= last_kept < i && kept@.last().song.path@ == s[last_kept].path),
                paths_distinct(s),
                paths_distinct(songs_of(kept@)),
                forall|t: int| 0 <= t < kept@.len() ==> exists|j: int| 0 <= j < i && #[trigger] songs_of(kept@)[t].path == s[j].path,
            decreases n - i,
        {
            assert(rr@[rr@.len() - 1].song@ == s[i as int]);
            assert(rc@[rc@.len() - 1]@ == c[i as int]);
            let mut row = rr.pop().unwrap();
            let check = rc.pop().unwrap();
            proof {
                assert(s.take(i + 1).drop_last() =~= s.take(i as int));
                assert(c.take(i + 1).drop_last() =~= c.take(i as int));
                assert(s.take(i + 1).last() == s[i as int]);
                assert(c.take(i + 1).last() == c[i as int]);
            }
            let ghost before = songs_of(kept@);
            let keep = match check {
                RowCheck::Unreadable => false,
                RowCheck::Unchanged => true,
                RowCheck::Modified(m) => {
                    row.song.metadata = m;
                    true
                },
            };
            if keep {
                proof {
                    assert forall|m: int| 0 <= m < before.len() implies path_le(
                        #[trigger] before[m].path,
                        s[i as int].path,
                    ) by {
                        assert(path_le(s[last_kept].path, s[i as int].path));
                        if m < before.len() - 1 {
                            assert(path_le(before[m].path, before[before.len() - 1].path));
                        }
                        lemma_path_order_chain(before[m].path, before[before.len() - 1].path, s[i as int].path);
                    }
                }
                kept.push(row);
                proof {
                    last_kept = i as int;
                    let now = songs_of(kept@);
                    assert(now =~= before.push(now.last()));
                    assert(now.last().path == s[i as int].path);
                    assert forall|t: int| 0 <= t < kept@.len() implies exists|j: int| 0 <= j < i + 1 && #[trigger] songs_of(kept@)[t].path == s[j].path by {
                        if t < before.len() {
                            let j = choose|j: int| 0 <= j < i && before[t].path == s[j].path;
                            assert(now[t] == before[t]);
                        } else {
                            assert(now[t].path == s[i as int].path);
                        }
                    }
                    assert forall|a: int, b: int| 0 <= a < now.len() && 0 <= b < now.len() && a != b implies #[trigger] now[a].path
                        != #[trigger] now[b].path by {
                        if a < before.len() && b < before.len() {
                            assert(now[a] == before[a] && now[b] == before[b]);
                        } else if a < before.len() {
                            let j = choose|j: int| 0 <= j < i && before[a].path == s[j].path;
                            assert(now[a] == before[a]);
                            assert(s[j].path != s[i as int].path);
                        } else {
                            let j = choose|j: int| 0 <= j < i && before[b].path == s[j].path;
                            assert(now[b] == before[b]);
                            assert(s[j].path != s[i as int].path);
                        }
                    }
                }
            } else {
                assert(songs_of(kept@) =~= before);
            }
            i = i + 1;
        }
        assert(s.take(n as int) =~= s);
        assert(c.take(n as int) =~= c);
        let removed = n - kept.len();
        let ghost given = song_views(added@);
        let added_rows = to_data_rows(added);
        let ghost sa = songs_of(added_rows@);
        let ghost k = songs_of(kept@);
        let ghost pred = path_not_in(k);
        let filtered = fresh_rows(&kept, added_rows);
        let ghost fs = songs_of(filtered@);
        let fresh = dedup_rows(filtered);
        proof {
            let f = songs_of(fresh@);
            assert forall|t: int| 0 <= t < f.len() implies !has_path(k, #[trigger] f[t].path) by {
                assert(fs.contains(f[t]));
                let x = choose|x: int| 0 <= x < fs.len() && fs[x] == f[t];
                sa.lemma_filter_pred(pred, x);
            }
            lemma_merge_views(k, f);
            lemma_paths_distinct_union(k, f, merge_views(k, f));
            lemma_filter_to_multiset(sa, pred);
            let fin = merge_views(k, f);
            lemma_songs_after_update(given, sa, k, pred, fs, f, fin);
            if paths_distinct(given) {
                lemma_paths_distinct_multiset(given, sa);
                lemma_filter_paths_distinct(sa, pred);
            }
        }
        self.data_rows = merge_rows(kept, fresh);
        let ghost given = views_of(playlists@);
        self.playlists = distinct_paths(playlists);
        proof {
            lemma_first_occurrences(given);
        }
        update_response(found, removed)
    }

    /// The songs at `args.0`, a path relative to the music directory or absolute:
    /// `target` says whether that path names a file (`Ok(true)`), a directory
    /// (`Ok(false)`), or why it could not be looked at.
    pub fn ls(&self, args: LsArgs, target: Result<bool, String>) -> (r: Response)
        ensures
            match target {
                Ok(is_file) => r@ == object_insert(
                    ok_fields(),
                    "paths"@,
                    str_array(ls_paths(self.songs(), abs_path(self.music_dir(), args.0@), is_file)),
                ),
                Err(m) => r@ == err_fields(m@),
            },
    {
        let LsArgs(path) = args;
        let abs = join_path(self.music_dir.as_str(), path.as_str());
        let ghost s = self.songs();
        let is_file = match target {
            Ok(f) => f,
            Err(m) => return Response::new_err(m),
        };
        let mut paths: Vec<String> = Vec::new();
        if is_file {
            let mut found = false;
            let mut i: usize = 0;
            while i < self.data_rows.len()
                invariant
                    i <= self.data_rows@.len(),
                    s == self.songs(),
                    s.len() == self.data_rows@.len(),
                    found == exists|j: int| 0 <= j < i && #[trigger] s[j].path == abs@,
                decreases self.data_rows@.len() - i,
            {
                if str_eq(self.data_rows[i].song.path.as_str(), abs.as_str()) {
                    assert(s[i as int].path == abs@);
                    found = true;
                }
                i = i + 1;
            }
            if found {
                paths.push(abs.clone());
                assert(views_of(paths@) =~= seq![abs@]);
            } else {
                assert(views_of(paths@) =~= Seq::<Seq<char>>::empty());
            }
        } else {
            let mut i: usize = 0;
            assert(views_of(paths@) =~= dir_songs(s.take(0), abs@));
            while i < self.data_rows.len()
                invariant
                    i <= self.data_rows@.len(),
                    s == self.songs(),
                    s.len() == self.data_rows@.len(),
                    views_of(paths@) == dir_songs(s.take(i as int), abs@),
                decreases self.data_rows@.len() - i,
            {
                let p = &self.data_rows[i].song.path;
                assert(s.take(i + 1).drop_last() =~= s.take(i as int));
                assert(s.take(i + 1).last() == s[i as int]);
                if is_in_dir(p.as_str(), abs.as_str()) {
                    let ghost before = paths@;
                    paths.push(p.clone());
                    assert(views_of(paths@) =~= views_of(before).push(p@));
                }
                i = i + 1;
            }
            assert(s.take(s.len() as int) =~= s);
        }
        Response::new_ok().with_item("paths", str_array_json(paths))
    }

    /// The values of `args.1` for the songs at the paths `args.0` (relative to the
    /// music directory, or absolute): an object per path, or null for a path the
    /// database does not hold. The database may only be empty when no path is asked.
    pub fn metadata(&self, args: MetadataArgs) -> (r: Response)
        requires
            self.wf(),
            args.0@.len() > 0 ==> self.songs().len() > 0,
        ensures
            r@ == metadata_fields(self.songs(), self.music_dir(), views_of(args.0@), args.1@),
    {
        let MetadataArgs(paths, tags) = args;
        let ghost s = self.songs();
        let mut items: Vec<Json> = Vec::new();
        let mut i: usize = 0;
        while i < paths.len()
            invariant
                i <= paths@.len(),
                s == self.songs(),
                self.wf(),
                paths@.len() > 0 ==> s.len() > 0,
                items_view(items@) == Seq::new(
                    i as nat,
                    |k: int| song_metadata(s, abs_path(self.music_dir(), paths@[k]@), tags@),
                ),
            decreases paths@.len() - i,
        {
            let abs = join_path(self.music_dir.as_str(), paths[i].as_str());
            let item = match binary_search_by_path(&self.data_rows, abs.as_str()) {
                Some(row) => {
                    proof {
                        assert(is_last_with_path(s, abs@, row as int)) by {
                            assert forall|j: int| row < j < s.len() implies #[trigger] s[j].path != abs@ by {
                                assert(path_le(s[row + 1].path, s[j].path));
                                lemma_path_order_chain(abs@, s[row + 1].path, s[j].path);
                                lemma_path_lt_irreflexive(abs@);
                            }
                        }
                        let c = last_with_path(s, abs@);
                        assert(c == row) by {
                            if c < row {
                                assert(s[row as int].path == abs@);
                            } else if c > row {
                                assert(s[c].path == abs@);
                            }
                        }
                        assert(has_path(s, abs@));
                    }
                    Json::Object(tags_object_of(&self.data_rows[row].song.metadata, &tags))
                },
                None => Json::Null,
            };
            proof {
                if item is Object {
                    lemma_object_view(&item, item->Object_0);
                }
            }
            let ghost before = items@;
            items.push(item);
            assert(items_view(items@) =~= Seq::new(
                i as nat + 1,
                |k: int| song_metadata(s, abs_path(self.music_dir(), paths@[k]@), tags@),
            )) by {
                assert(items_view(items@) =~= items_view(before).push(item@));
            }
            i = i + 1;
        }
        let value = Json::Array(items);
        proof {
            lemma_array_view(&value, items);
            assert(items_view(items@) =~= Seq::new(
                views_of(paths@).len(),
                |k: int| song_metadata(s, abs_path(self.music_dir(), views_of(paths@)[k]), tags@),
            ));
        }
        Response::new_ok().with_item("metadata", value)
    }

    /// The songs that pass every filter of `args.1`, sorted by the comparators
    /// `args.3` and grouped by the values of the tags `args.2`; each song is given by
    /// the values of the tags `args.0`, then its path. Groups come in the order in
    /// which they first appear; which of two songs that compare equal comes first is
    /// left open.
    pub fn select(&self, args: SelectArgs) -> (r: Response)
        requires
            self.wf(),
        ensures
            exists|order: Seq<usize>|
                #[trigger] is_select_answer(self.songs(), args.0@, args.1.0@, args.2@, args.3@, order, r@),
    {
        let SelectArgs(tags, filter_expr, group_by, sort_by) = args;
        let ghost s = self.songs();
        let n = self.data_rows.len();
        let mut idx: Vec<usize> = Vec::new();
        let mut i: usize = 0;
        assert(s.take(0) =~= Seq::<SongView>::empty());
        while i < n
            invariant
                n == self.data_rows@.len(),
                s == self.songs(),
                i <= n,
                idx@ == passing_indices(s.take(i as int), filter_expr.0@),
                forall|k: int| 0 <= k < idx@.len() ==> idx@[k] < i,
            decreases n - i,
        {
            assert(s.take(i + 1).drop_last() =~= s.take(i as int));
            assert(s.take(i + 1).last() == s[i as int]);
            if filter_expr.evaluate(&self.data_rows[i].song) {
                idx.push(i);
            }
            i = i + 1;
        }
        assert(s.take(n as int) =~= s);
        let ghost passing = idx@;
        sort_by_comparators(&mut idx, &self.data_rows, &sort_by);
        let ghost order = pick(s, idx@);
        let mut keys: Vec<Vec<Option<String>>> = Vec::new();
        let mut datas: Vec<Vec<Json>> = Vec::new();
        let mut t: usize = 0;
        assert(groups_view(keys@, datas@) =~= groups_of(order.take(0), tags@, group_by@));
        while t < idx.len()
            invariant
                n == self.data_rows@.len(),
                s == self.songs(),
                order == pick(s, idx@),
                forall|k: int| 0 <= k < idx@.len() ==> idx@[k] < n,
                t <= idx@.len(),
                keys@.len() == datas@.len(),
                forall|j: int| 0 <= j < keys@.len() ==> (#[trigger] keys@[j])@.len() == group_by@.len(),
                groups_view(keys@, datas@) == groups_of(order.take(t as int), tags@, group_by@),
            decreases idx@.len() - t,
        {
            let row = idx[t];
            let song = &self.data_rows[row].song;
            let key = group_key_of(&song.metadata, &group_by);
            assert(key@.len() == group_by@.len()) by {
                assert(opt_views(key@).len() == key@.len());
            }
            let line = song_row_of(song, &tags);
            let ghost g = groups_view(keys@, datas@);
            proof {
                assert(order.take(t + 1).drop_last() =~= order.take(t as int));
                assert(order.take(t + 1).last() == song@);
            }
            let mut gi: usize = 0;
            while gi < keys.len()
                invariant
                    gi <= keys@.len(),
                    g == groups_view(keys@, datas@),
                    forall|j: int| 0 <= j < gi ==> g[j].0 != opt_views(key@),
                ensures
                    gi <= keys@.len(),
                    forall|j: int| 0 <= j < gi ==> g[j].0 != opt_views(key@),
                    gi < keys@.len() ==> g[gi as int].0 == opt_views(key@),
                decreases keys@.len() - gi,
            {
                if keys_equal(&keys[gi], &key) {
                    break;
                }
                gi = gi + 1;
            }
            proof {
                lemma_key_pos(g, opt_views(key@), gi as int);
            }
            if gi < keys.len() {
                let ghost before = datas@;
                let mut d = datas.remove(gi);
                let ghost old_items = items_view(d@);
                d.push(line);
                assert(items_view(d@) =~= old_items.push(line@));
                datas.insert(gi, d);
                assert(datas@ =~= before.update(gi as int, d));
                assert(groups_view(keys@, datas@) =~= g.update(
                    gi as int,
                    (opt_views(key@), g[gi as int].1.push(line@)),
                ));
            } else {
                let mut d: Vec<Json> = Vec::new();
                d.push(line);
                assert(items_view(d@) =~= seq![line@]);
                keys.push(key);
                datas.push(d);
                assert(groups_view(keys@, datas@) =~= g.push((opt_views(key@), seq![line@])));
            }
            t = t + 1;
        }
        assert(order.take(idx@.len() as int) =~= order);
        let ghost groups = groups_view(keys@, datas@);
        let ng = keys.len();
        let mut rev_keys = reversed(keys);
        let mut rev_datas = reversed(datas);
        let mut values: Vec<Json> = Vec::new();
        let mut gi: usize = 0;
        while gi < ng
            invariant
                gi <= ng,
                groups.len() == ng,
                rev_keys@.len() == ng - gi,
                rev_datas@.len() == ng - gi,
                forall|k: int| 0 <= k < rev_keys@.len() ==> (#[trigger] rev_keys@[k])@.len() == group_by@.len(),
                forall|k: int| 0 <= k < rev_keys@.len() ==> opt_views((#[trigger] rev_keys@[k])@) == groups[ng - 1 - k].0,
                forall|k: int| 0 <= k < rev_datas@.len() ==> items_view((#[trigger] rev_datas@[k])@) == groups[ng - 1 - k].1,
                items_view(values@) == Seq::new(
                    gi as nat,
                    |j: int|
                        JsonView::Object(
                            object_insert(key_fields(group_by@, groups[j].0), "data"@, JsonView::Array(groups[j].1)),
                        ),
                ),
            decreases ng - gi,
        {
            assert(opt_views(rev_keys@[rev_keys@.len() - 1]@) == groups[gi as int].0);
            assert(items_view(rev_datas@[rev_datas@.len() - 1]@) == groups[gi as int].1);
            let key = rev_keys.pop().unwrap();
            let d = rev_datas.pop().unwrap();
            let mut obj = key_fields_of(&group_by, &key);
            let data = Json::Array(d);
            proof {
                lemma_array_view(&data, d);
            }
            insert_field(&mut obj, "data", data);
            let item = Json::Object(obj);
            proof {
                lemma_object_view(&item, obj);
                reveal_strlit("data");
            }
            let ghost before = values@;
            values.push(item);
            assert(items_view(values@) =~= items_view(before).push(item@));
            gi = gi + 1;
        }
        let result = Json::Array(values);
        proof {
            lemma_array_view(&result, values);
            assert(items_view(values@) =~= select_values(order, tags@, group_by@));
        }
        let r = Response::new_ok().with_item("values", result);
        proof {
            reveal_strlit("values");
            assert(is_select_answer(s, tags@, filter_expr.0@, group_by@, sort_by@, idx@, r@));
        }
        r
    }

    /// Every song lies below the music directory.
    pub open spec fn under_music_dir(&self) -> bool {
        forall|i: int| 0 <= i < self.songs().len() ==> strip_dir(self.music_dir(), #[trigger] self.songs()[i].path) is Some
    }

    /// Whether every song lies below the music directory.
    pub fn songs_under_music_dir(&self) -> (r: bool)
        ensures
            r == self.under_music_dir(),
    {
        let mut i: usize = 0;
        while i < self.data_rows.len()
            invariant
                i <= self.data_rows@.len(),
                forall|j: int| 0 <= j < i ==> strip_dir(self.music_dir(), #[trigger] self.songs()[j].path) is Some,
            decreases self.data_rows@.len() - i,
        {
            let below = strip_dir_prefix(self.music_dir.as_str(), self.data_rows[i].song.path.as_str());
            if below.is_none() {
                assert(strip_dir(self.music_dir(), self.songs()[i as int].path) is None);
                return false;
            }
            i = i + 1;
        }
        true
    }

    /// The path of a playlist file: `path` taken from the playlist directory unless
    /// it is absolute.
    pub fn playlist_path(&self, path: &str) -> (r: String)
        ensures
            r@ == abs_path(self.playlist_dir(), path@),
    {
        join_path(self.playlist_dir.as_str(), path)
    }

    /// The line that adds the song at `song` (relative to the music directory, or
    /// absolute) to a playlist file: its path relative to the music directory; or
    /// the message that the database does not hold it. The database may not be
    /// empty, and its songs lie below the music directory.
    pub fn playlist_entry(&self, song: &str) -> (r: Result<String, String>)
        requires
            self.wf(),
            self.songs().len() > 0,
            self.under_music_dir(),
        ensures
            match r {
                Ok(rel) => has_path(self.songs(), abs_path(self.music_dir(), song@)) && strip_dir(
                    self.music_dir(),
                    abs_path(self.music_dir(), song@),
                ) == Some(rel@),
                Err(m) => !has_path(self.songs(), abs_path(self.music_dir(), song@)) && m@ == song_not_found(song@),
            },
    {
        match self.try_to_abs_path(song) {
            Some(abs) => {
                let below = strip_dir_prefix(self.music_dir.as_str(), abs.as_str());
                match below {
                    Some(rel) => Ok(rel),
                    None => {
                        proof {
                            let i = choose|i: int| 0 <= i < self.songs().len() && #[trigger] self.songs()[i].path == abs@;
                            assert(strip_dir(self.music_dir(), self.songs()[i].path) is Some);
                        }
                        Err(String::new())
                    },
                }
            },
            None => {
                let mut m = String::from_str("song `");
                m.append(song);
                m.append("` not found in the database");
                Err(m)
            },
        }
    }

    /// The text of a playlist file that lists the entries, their paths made
    /// relative to the music directory; each must lie below it.
    pub fn playlist_text_of(&self, entries: &[Entry]) -> (r: String)
        requires
            forall|i: int| 0 <= i < entries@.len() ==> strip_dir(self.music_dir(), #[trigger] entries@[i].path@) is Some,
        ensures
            r@ == playlist_text(self.music_dir(), entry_paths(entries@)),
    {
        let mut r = String::new();
        let mut i: usize = 0;
        let ghost paths = entry_paths(entries@);
        assert(paths.take(0) =~= Seq::<Seq<char>>::empty());
        while i < entries.len()
            invariant
                i <= entries@.len(),
                paths == entry_paths(entries@),
                forall|k: int| 0 <= k < entries@.len() ==> strip_dir(self.music_dir(), #[trigger] entries@[k].path@) is Some,
                r@ == playlist_text(self.music_dir(), paths.take(i as int)),
            decreases entries@.len() - i,
        {
            let rel = strip_dir_prefix(self.music_dir.as_str(), entries[i].path.as_str());
            let ghost r0 = r@;
            match rel {
                Some(rel) => {
                    r.append(rel.as_str());
                },
                None => {
                    assert(strip_dir(self.music_dir(), entries@[i as int].path@) is Some);
                },
            }
            push_char(&mut r, '\n');
            proof {
                assert(paths.take(i + 1).drop_last() =~= paths.take(i as int));
                assert(paths.take(i + 1).last() == entries@[i as int].path@);
            }
            i = i + 1;
        }
        assert(paths.take(entries@.len() as int) =~= paths);
        r
    }

    /// The paths of the playlists, as a JSON array of strings.
    pub fn playlists_json(&self) -> (r: Json)
        ensures
            r@ == str_array(self.playlist_paths()),
    {
        let mut v: Vec<String> = Vec::new();
        let mut i: usize = 0;
        while i < self.playlists.len()
            invariant
                i <= self.playlists@.len(),
                views_of(v@) == views_of(self.playlists@).take(i as int),
            decreases self.playlists@.len() - i,
        {
            let c = self.playlists[i].clone();
            let ghost before = v@;
            v.push(c);
            assert(views_of(v@) =~= views_of(before).push(self.playlists@[i as int]@));
            assert(views_of(self.playlists@).take(i + 1) =~= views_of(self.playlists@).take(i as int).push(self.playlists@[i as int]@));
            i = i + 1;
        }
        assert(views_of(self.playlists@).take(self.playlists@.len() as int) =~= views_of(self.playlists@));
        str_array_json(v)
    }

    /// The paths of the songs, in the order of the rows.
    pub fn song_paths(&self) -> (r: Vec<String>)
        ensures
            r@.len() == self.songs().len(),
            forall|i: int| 0 <= i < r@.len() ==> (#[trigger] r@[i])@ == self.songs()[i].path,
    {
        let mut r: Vec<String> = Vec::new();
        let mut i: usize = 0;
        while i < self.data_rows.len()
            invariant
                i <= self.data_rows@.len(),
                r@.len() == i,
                forall|j: int| 0 <= j < i ==> (#[trigger] r@[j])@ == self.songs()[j].path,
            decreases self.data_rows@.len() - i,
        {
            r.push(self.data_rows[i].song.path.clone());
            i = i + 1;
        }
        r
    }

    /// Whether the database holds no song.
    pub fn is_empty(&self) -> (r: bool)
        ensures
            r == (self.songs().len() == 0),
    {
        self.data_rows.len() == 0
    }

    /// The directory of the collection.
    pub fn music_dir_path(&self) -> (r: &str)
        ensures
            r@ == self.music_dir(),
    {
        self.music_dir.as_str()
    }

    /// The directory of the playlists.
    pub fn playlist_dir_path(&self) -> (r: &str)
        ensures
            r@ == self.playlist_dir(),
    {
        self.playlist_dir.as_str()
    }

    /// The paths of the playlists.
    pub fn playlists(&self) -> (r: &Vec<String>)
        ensures
            views_of(r@) == self.playlist_paths(),
    {
        &self.playlists
    }

    /// The absolute path of the song at `path` (relative to the music directory, or
    /// absolute), if the database holds it. The database may not be empty.
    pub fn try_to_abs_path(&self, path: &str) -> (r: Option<String>)
        requires
            self.wf(),
            self.songs().len() > 0,
        ensures
            match r {
                Some(p) => p@ == abs_path(self.music_dir(), path@) && has_path(self.songs(), p@),
                None => !has_path(self.songs(), abs_path(self.music_dir(), path@)),
            },
    {
        let abs = join_path(self.music_dir.as_str(), path);
        match binary_search_by_path(&self.data_rows, abs.as_str()) {
            Some(i) => {
                assert(self.songs()[i as int].path == abs@);
                Some(abs)
            },
            None => None,
        }
    }
}

} // verus!
