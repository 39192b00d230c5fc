use std::collections::HashSet;
use vstd::prelude::*;
use vstd::std_specs::cmp::PartialEqSpecImpl;
use vstd::std_specs::convert::FromSpecImpl;
use vstd::string::StringExecFns;

verus! {

broadcast use {
    vstd::std_specs::hash::group_hash_axioms,
    vstd::seq_lib::group_to_multiset_ensures,
    vstd::multiset::group_multiset_axioms,
};

/// Multiplier of the queue's pseudo-random generator.
pub const RNG_A: usize = 35;

/// Modulus of the queue's pseudo-random generator.
pub const RNG_MOD: usize = 509;

/// One song in the queue: a queue-unique id and the song's path.
#[derive(Debug)]
pub struct Entry {
    pub id: u32,
    pub path: String,
}

impl Clone for Entry {
    fn clone(&self) -> (res: Self)
        ensures
            res == *self,
    {
        Entry { id: self.id, path: self.path.clone() }
    }
}

impl PartialEq for Entry {
    fn eq(&self, other: &Self) -> (res: bool) {
        self.id == other.id && self.path == other.path
    }
}

impl PartialEqSpecImpl for Entry {
    open spec fn obeys_eq_spec() -> bool {
        true
    }

    open spec fn eq_spec(&self, other: &Self) -> bool {
        self.id == other.id && self.path@ == other.path@
    }
}

impl From<(u32, String)> for Entry {
    fn from(pair: (u32, String)) -> (res: Self) {
        Entry { id: pair.0, path: pair.1 }
    }
}

impl FromSpecImpl<(u32, String)> for Entry {
    open spec fn obeys_from_spec() -> bool {
        true
    }

    open spec fn from_spec(v: (u32, String)) -> Self {
        Entry { id: v.0, path: v.1 }
    }
}

/// One step of the Lehmer generator: `(s * RNG_A) % RNG_MOD`.
pub open spec fn rng_step(s: int) -> int {
    (s * 35) % 509
}

/// A small multiplicative pseudo-random generator whose whole state is one integer.
#[derive(Debug, Clone)]
pub struct Rng(pub usize);

impl Rng {
    /// Advances the generator and returns a number in `[l, r]`.
    pub fn next_usize(&mut self, l: usize, r: usize) -> (x: usize)
        requires
            l <= r,
            r - l < usize::MAX,
        ensures
            final(self).0 == rng_step(old(self).0 as int),
            x == (final(self).0 as int) % (r - l + 1) + l,
            l <= x <= r,
    {
        proof {
            vstd::arithmetic::div_mod::lemma_mul_mod_noop_left(self.0 as int, 35, 509);
        }
        self.0 = (self.0 % RNG_MOD) * RNG_A % RNG_MOD;
        self.0 % (r - l + 1) + l
    }
}

/// `s` with the elements at `i` and `j` exchanged.
pub open spec fn swap_seq<A>(s: Seq<A>, i: int, j: int) -> Seq<A> {
    s.update(i, s[j]).update(j, s[i])
}

/// The Fisher-Yates shuffle driven by `Rng`, from index `i` on: the shuffled
/// sequence and the generator's final state.
pub open spec fn shuffle_from(ids: Seq<u32>, state: usize, i: nat) -> (Seq<u32>, usize)
    decreases ids.len() - i,
{
    if i + 1 < ids.len() {
        let s: int = rng_step(state as int);
        let j: int = s % ((ids.len() - 1 - i) + 1) + i;
        shuffle_from(swap_seq(ids, i as int, j), s as usize, i + 1)
    } else {
        (ids, state)
    }
}

/// The shuffle that `Random::new` performs: the generator is seeded with the length.
pub open spec fn shuffle(ids: Seq<u32>) -> (Seq<u32>, usize) {
    shuffle_from(ids, ids.len() as usize, 0)
}

proof fn lemma_swap_multiset(s: Seq<u32>, i: int, j: int)
    requires
        0 <= i < s.len(),
        0 <= j < s.len(),
    ensures
        swap_seq(s, i, j).to_multiset() == s.to_multiset(),
        swap_seq(s, i, j).len() == s.len(),
{
    broadcast use vstd::seq_lib::to_multiset_update;
    broadcast use vstd::multiset::group_multiset_properties;

    let t = s.update(i, s[j]);
    assert(t[j] == s[j] || i == j);
    if i == j {
        assert(swap_seq(s, i, j) =~= s);
    } else {
        assert(t.to_multiset() == s.to_multiset().insert(s[j]).remove(s[i]));
        assert(t.update(j, s[i]).to_multiset() == t.to_multiset().insert(s[i]).remove(s[j]));
        assert(s.to_multiset().count(s[i]) > 0) by {
            assert(s.contains(s[i]));
        }
        assert(s.to_multiset().count(s[j]) > 0) by {
            assert(s.contains(s[j]));
        }
        assert(t.update(j, s[i]).to_multiset() =~= s.to_multiset());
    }
}

/// A shuffle only reorders: the result holds the same ids, as often as before.
pub proof fn lemma_shuffle_from_is_permutation(ids: Seq<u32>, state: usize, i: nat)
    ensures
        shuffle_from(ids, state, i).0.to_multiset() == ids.to_multiset(),
        shuffle_from(ids, state, i).0.len() == ids.len(),
    decreases ids.len() - i,
{
    if i + 1 < ids.len() {
        let s: int = rng_step(state as int);
        let j: int = s % ((ids.len() - 1 - i) + 1) + i;
        lemma_swap_multiset(ids, i as int, j);
        lemma_shuffle_from_is_permutation(swap_seq(ids, i as int, j), s as usize, i + 1);
    }
}

/// The pool of ids that random mode still has to play, and its generator.
#[derive(Debug)]
pub struct Random {
    pub rng: Rng,
    pub ids: Vec<u32>,
}

impl Clone for Random {
    fn clone(&self) -> (res: Self)
        ensures
            res.rng.0 == self.rng.0,
            res.ids@ == self.ids@,
    {
        let ids = self.ids.clone();
        assert(ids@ =~= self.ids@);
        Random { rng: Rng(self.rng.0), ids }
    }
}

impl Random {
    /// Shuffles `ids` (Fisher-Yates) with a generator seeded by their number.
    pub fn new(ids: Vec<u32>) -> (res: Self)
        ensures
            res.ids@ == shuffle(ids@).0,
            res.rng.0 == shuffle(ids@).1,
            res.ids@.to_multiset() == ids@.to_multiset(),
    {
        let mut ids = ids;
        let ghost orig = ids@;
        let mut rng = Rng(ids.len());
        let n = ids.len();
        let last = if n == 0 { 0 } else { n - 1 };
        let mut i: usize = 0;
        proof {
            lemma_shuffle_from_is_permutation(orig, orig.len() as usize, 0);
        }
        while i < last
            invariant
                n == ids@.len(),
                n == orig.len(),
                last == if n == 0 { 0 } else { n - 1 },
                i <= last || n == 0,
                shuffle_from(ids@, rng.0, i as nat) == shuffle(orig),
            decreases last - i,
        {
            let ghost before = ids@;
            let ghost st = rng.0;
            let j = rng.next_usize(i, last);
            let a = ids[i];
            let b = ids[j];
            ids.set(i, b);
            ids.set(j, a);
            assert(ids@ =~= swap_seq(before, i as int, j as int));
            assert(shuffle_from(before, st, i as nat) == shuffle_from(ids@, rng.0, (i + 1) as nat));
            i = i + 1;
        }
        Random { rng, ids }
    }
}

/// What the playback mode holds, as plain values: for random mode, the
/// generator's state and the pool of ids still to be played.
pub enum ModeView {
    Sequential,
    Single,
    Random(usize, Seq<u32>),
}

/// How the queue picks the next song.
#[derive(Debug)]
pub enum QueueMode {
    Sequential,
    Single,
    Random(Random),
}

impl View for QueueMode {
    type V = ModeView;

    open spec fn view(&self) -> ModeView {
        match self {
            QueueMode::Sequential => ModeView::Sequential,
            QueueMode::Single => ModeView::Single,
            QueueMode::Random(r) => ModeView::Random(r.rng.0, r.ids@),
        }
    }
}

impl Clone for QueueMode {
    fn clone(&self) -> (res: Self)
        ensures
            res@ == self@,
    {
        match self {
            QueueMode::Sequential => QueueMode::Sequential,
            QueueMode::Single => QueueMode::Single,
            QueueMode::Random(r) => QueueMode::Random(r.clone()),
        }
    }
}

/// The name under which a mode is reported to clients.
pub open spec fn mode_name(m: ModeView) -> Seq<char> {
    match m {
        ModeView::Sequential => "sequential"@,
        ModeView::Single => "single"@,
        ModeView::Random(_, _) => "random"@,
    }
}

/// The ids of the entries, in order.
pub open spec fn ids_of(s: Seq<Entry>) -> Seq<u32> {
    s.map_values(|e: Entry| e.id)
}

/// Every id of the random pool belongs to an entry of `list`.
pub open spec fn pool_in_list(pool: Seq<u32>, list: Seq<Entry>) -> bool {
    forall|i: int| 0 <= i < pool.len() ==> ids_of(list).contains(#[trigger] pool[i])
}

/// In random mode, the pool holds only ids of entries of `list`.
pub open spec fn mode_fits(m: ModeView, list: Seq<Entry>) -> bool {
    match m {
        ModeView::Random(_, pool) => pool_in_list(pool, list),
        _ => true,
    }
}

/// The mode once the queue is emptied: random mode keeps its generator and has
/// nothing left to play.
pub open spec fn mode_cleared(m: ModeView) -> ModeView {
    match m {
        ModeView::Random(st, _) => ModeView::Random(st, Seq::<u32>::empty()),
        other => other,
    }
}

/// One step of random mode over `list`: the id it plays (if any), the generator's
/// state after it and the pool left. An empty pool is first refilled with a
/// shuffle of every id of the list.
pub open spec fn random_next(list: Seq<Entry>, st: usize, pool: Seq<u32>) -> (Option<u32>, usize, Seq<u32>) {
    if pool.len() > 0 {
        (Some(pool.last()), st, pool.drop_last())
    } else if list.len() == 0 {
        (None, st, pool)
    } else {
        let sh = shuffle(ids_of(list));
        (Some(sh.0.last()), sh.1, sh.0.drop_last())
    }
}

/// The ids that `k` steps of random mode play over an unchanged `list`, starting
/// from the generator state `st` and the pool `pool`.
pub open spec fn random_run(list: Seq<Entry>, st: usize, pool: Seq<u32>, k: nat) -> Seq<Option<u32>>
    decreases k,
{
    if k == 0 {
        Seq::empty()
    } else {
        let n = random_next(list, st, pool);
        seq![n.0] + random_run(list, n.1, n.2, (k - 1) as nat)
    }
}

/// `r` is the first index in `s` of an entry with id `id`, or `None` when there is none.
pub open spec fn is_first_index_of(s: Seq<Entry>, id: u32, r: Option<usize>) -> bool {
    match r {
        Some(i) => i < s.len() && s[i as int].id == id && forall|j: int|
            0 <= j < i ==> #[trigger] s[j].id != id,
        None => forall|j: int| 0 <= j < s.len() ==> #[trigger] s[j].id != id,
    }
}

/// The position of the first entry with id `id`, or `None` when there is none.
pub open spec fn first_index_of(s: Seq<Entry>, id: u32) -> Option<usize> {
    choose|r: Option<usize>| is_first_index_of(s, id, r)
}

/// No two entries share an id.
pub open spec fn ids_distinct(s: Seq<Entry>) -> bool {
    forall|i: int, j: int| 0 <= i < s.len() && 0 <= j < s.len() && i != j ==> s[i].id != s[j].id
}

/// Where sequential mode moves from `pos` in a list of `len` entries.
pub open spec fn next_pos_sequential(pos: Option<usize>, len: nat) -> Option<usize> {
    match pos {
        Some(p) => if p + 1 < len {
            Some((p + 1) as usize)
        } else {
            None
        },
        None => if len > 0 {
            Some(0)
        } else {
            None
        },
    }
}

/// Where `move_prev` moves from `pos` in a list of `len` entries.
pub open spec fn prev_pos(pos: Option<usize>, len: nat) -> Option<usize> {
    match pos {
        Some(p) => if p > 0 {
            Some((p - 1) as usize)
        } else {
            None
        },
        None => if len > 0 {
            Some((len - 1) as usize)
        } else {
            None
        },
    }
}

/// How `move_next` changes the position and the mode, by mode: sequential mode steps
/// forward, single mode stops, random mode pops the next id from its pool and,
/// when the pool is empty, first refills it with a shuffle of every id in the list.
pub open spec fn moved_next(
    list: Seq<Entry>,
    pos: Option<usize>,
    mode: ModeView,
    new_pos: Option<usize>,
    new_mode: ModeView,
) -> bool {
    match mode {
        ModeView::Sequential => new_mode == mode && new_pos == next_pos_sequential(pos, list.len()),
        ModeView::Single => new_mode == mode && new_pos is None,
        ModeView::Random(st, pool) => if pool.len() > 0 {
            &&& new_mode == ModeView::Random(st, pool.drop_last())
            &&& new_pos == first_index_of(list, pool.last())
        } else if list.len() == 0 {
            new_mode == mode && new_pos is None
        } else {
            let sh = shuffle(ids_of(list));
            &&& new_mode == ModeView::Random(sh.1, sh.0.drop_last())
            &&& new_pos == first_index_of(list, sh.0.last())
        },
    }
}

/// The list after a new entry is added: at `pos` when that is a valid index, else at the end.
pub open spec fn list_after_add(s: Seq<Entry>, e: Entry, pos: Option<usize>) -> Seq<Entry> {
    match pos {
        Some(p) => if p < s.len() {
            s.insert(p as int, e)
        } else {
            s.push(e)
        },
        None => s.push(e),
    }
}

/// The position after an entry is added at `at` in a list of `len` entries: the
/// current entry moves up by one when the new one goes at or before it, so that it
/// stays current.
pub open spec fn pos_after_add(pos: Option<usize>, at: Option<usize>, len: nat) -> Option<usize> {
    match (pos, at) {
        (Some(c), Some(p)) => if p < len && p <= c {
            Some((c + 1) as usize)
        } else {
            pos
        },
        _ => pos,
    }
}

/// The random pool after a new id is added: the id takes a pseudo-random place `k`
/// and the id that stood there moves to the end.
pub open spec fn pool_after_add(state: usize, pool: Seq<u32>, id: u32) -> (usize, Seq<u32>) {
    if pool.len() == 0 {
        (state, seq![id])
    } else {
        let s = rng_step(state as int);
        let k = s % (pool.len() as int);
        (s as usize, pool.update(k, id).push(pool[k]))
    }
}

/// The list after the entry at `i` (if any) is removed.
pub open spec fn list_after_remove(s: Seq<Entry>, r: Option<usize>) -> Seq<Entry> {
    match r {
        Some(i) => s.remove(i as int),
        None => s,
    }
}

/// The test "differs from `id`".
pub open spec fn differs_from(id: u32) -> spec_fn(u32) -> bool {
    |x: u32| x != id
}

/// The pool with every occurrence of `id` taken out.
pub open spec fn pool_without(pool: Seq<u32>, id: u32) -> Seq<u32> {
    pool.filter(differs_from(id))
}

/// The position after the entry at `removed` (if any) leaves the list: the current
/// entry keeps its place in the list, and there is none when it was the one removed.
pub open spec fn pos_after_remove(pos: Option<usize>, removed: Option<usize>) -> Option<usize> {
    match (removed, pos) {
        (Some(rp), Some(cp)) => if cp == rp {
            None
        } else if cp > rp {
            Some((cp - 1) as usize)
        } else {
            Some(cp)
        },
        _ => pos,
    }
}

/// The mode after a new id: in random mode the id joins the pool.
pub open spec fn mode_after_add(m: ModeView, id: u32) -> ModeView {
    match m {
        ModeView::Random(st, pool) => ModeView::Random(
            pool_after_add(st, pool, id).0,
            pool_after_add(st, pool, id).1,
        ),
        other => other,
    }
}

/// The mode with `id` taken out of the random pool (other modes are unchanged).
pub open spec fn mode_without(m: ModeView, id: u32) -> ModeView {
    match m {
        ModeView::Random(st, pool) => ModeView::Random(st, pool_without(pool, id)),
        other => other,
    }
}

/// The test "neither played nor the current id".
pub open spec fn unplayed(played: Set<u32>, cur: Option<u32>) -> spec_fn(u32) -> bool {
    |id: u32| !played.contains(id) && cur != Some(id)
}

/// The ids that random mode starts with: those neither played nor current, or all of
/// them when every id was played.
pub open spec fn not_played_ids(s: Seq<Entry>, played: Set<u32>, cur: Option<u32>) -> Seq<u32> {
    let fresh = ids_of(s).filter(unplayed(played, cur));
    if fresh.len() == 0 {
        ids_of(s)
    } else {
        fresh
    }
}

fn remove_all(v: &mut Vec<u32>, id: u32)
    ensures
        final(v)@ == pool_without(old(v)@, id),
{
    let mut out: Vec<u32> = Vec::new();
    let ghost pred = differs_from(id);
    let n = v.len();
    for i in 0..n
        invariant
            n == v.len(),
            pred == differs_from(id),
            out@ == v@.take(i as int).filter(pred),
    {
        let x = v[i];
        proof {
            v@.take(i as int).lemma_filter_push(x, pred);
            assert(v@.take(i as int).push(x) =~= v@.take(i + 1));
        }
        if x != id {
            out.push(x);
        }
    }
    assert(v@.take(n as int) =~= v@);
    *v = out;
}

/// There is exactly one answer to "where does `id` first occur".
pub proof fn lemma_first_index_unique(s: Seq<Entry>, id: u32, r: Option<usize>)
    requires
        is_first_index_of(s, id, r),
    ensures
        forall|f: Option<usize>| is_first_index_of(s, id, f) ==> f == r,
{
    assert forall|f: Option<usize>| is_first_index_of(s, id, f) implies f == r by {
        match (f, r) {
            (Some(a), Some(b)) => {
                if a < b {
                    assert(s[a as int].id == id);
                } else if b < a {
                    assert(s[b as int].id == id);
                }
            },
            (Some(a), None) => {
                assert(s[a as int].id == id);
            },
            (None, Some(b)) => {
                assert(s[b as int].id == id);
            },
            (None, None) => {},
        }
    }
}

/// Some answer to "where does `id` first occur" exists, so `first_index_of` gives it.
proof fn lemma_first_index_exists(s: Seq<Entry>, id: u32)
    requires
        s.len() <= usize::MAX,
    ensures
        is_first_index_of(s, id, first_index_of(s, id)),
    decreases s.len(),
{
    if s.len() == 0 {
        assert(is_first_index_of(s, id, None));
    } else {
        let t = s.drop_last();
        lemma_first_index_exists(t, id);
        let r0 = first_index_of(t, id);
        match r0 {
            Some(i) => {
                assert forall|j: int| 0 <= j < i implies #[trigger] s[j].id != id by {
                    assert(s[j] == t[j]);
                }
                assert(s[i as int] == t[i as int]);
                assert(is_first_index_of(s, id, Some(i)));
            },
            None => {
                if s.last().id == id {
                    assert forall|j: int| 0 <= j < (s.len() - 1) implies #[trigger] s[j].id != id by {
                        assert(s[j] == t[j]);
                    }
                    assert(is_first_index_of(s, id, Some((s.len() - 1) as usize)));
                } else {
                    assert forall|j: int| 0 <= j < s.len() implies #[trigger] s[j].id != id by {
                        if j < s.len() - 1 {
                            assert(s[j] == t[j]);
                        }
                    }
                    assert(is_first_index_of(s, id, None));
                }
            },
        }
    }
}

/// An id that some entry has is found, at an entry with that id.
proof fn lemma_first_index_of_member(s: Seq<Entry>, x: u32)
    requires
        s.len() <= usize::MAX,
        ids_of(s).contains(x),
    ensures
        first_index_of(s, x) matches Some(p) && p < s.len() && s[p as int].id == x,
{
    lemma_first_index_exists(s, x);
    let j = choose|j: int| 0 <= j < ids_of(s).len() && ids_of(s)[j] == x;
    assert(s[j].id == x);
}

/// A shuffle holds only ids that it was given.
proof fn lemma_shuffle_in(ids: Seq<u32>)
    ensures
        forall|i: int| 0 <= i < shuffle(ids).0.len() ==> ids.contains(#[trigger] shuffle(ids).0[i]),
        shuffle(ids).0.len() == ids.len(),
        shuffle(ids).0.to_multiset() == ids.to_multiset(),
{
    broadcast use vstd::seq_lib::to_multiset_contains;

    lemma_shuffle_from_is_permutation(ids, ids.len() as usize, 0);
    let sh = shuffle(ids).0;
    assert forall|i: int| 0 <= i < sh.len() implies ids.contains(#[trigger] sh[i]) by {
        assert(sh.contains(sh[i]));
        assert(sh.to_multiset().count(sh[i]) > 0);
    }
}

/// What is left of a pool once `id` is taken out comes from the pool and differs from `id`.
proof fn lemma_pool_without(pool: Seq<u32>, id: u32)
    ensures
        forall|i: int|
            0 <= i < pool_without(pool, id).len() ==> pool.contains(#[trigger] pool_without(pool, id)[i])
                && pool_without(pool, id)[i] != id,
{
    let pw = pool_without(pool, id);
    assert forall|i: int| 0 <= i < pw.len() implies pool.contains(#[trigger] pw[i]) && pw[i] != id by {
        pool.lemma_filter_pred(differs_from(id), i);
        assert(pw.contains(pw[i]));
        pool.lemma_filter_contains_rev(differs_from(id), pw[i]);
    }
}

/// Taking ids out of a pool keeps it within the list.
proof fn lemma_pool_without_in(pool: Seq<u32>, id: u32, list: Seq<Entry>)
    requires
        pool_in_list(pool, list),
    ensures
        pool_in_list(pool_without(pool, id), list),
{
    lemma_pool_without(pool, id);
    let pw = pool_without(pool, id);
    assert forall|i: int| 0 <= i < pw.len() implies ids_of(list).contains(#[trigger] pw[i]) by {
        assert(pool.contains(pw[i]));
        let k = choose|k: int| 0 <= k < pool.len() && pool[k] == pw[i];
        assert(ids_of(list).contains(pool[k]));
    }
}

/// The list after an entry is added holds that entry's id and every id it held.
proof fn lemma_list_after_add_ids(s: Seq<Entry>, e: Entry, pos: Option<usize>)
    ensures
        ids_of(list_after_add(s, e, pos)).contains(e.id),
        forall|x: u32| ids_of(s).contains(x) ==> #[trigger] ids_of(list_after_add(s, e, pos)).contains(x),
{
    let t = list_after_add(s, e, pos);
    let k: int = match pos {
        Some(p) => if p < s.len() { p as int } else { s.len() as int },
        None => s.len() as int,
    };
    assert(t[k] == e);
    assert(ids_of(t)[k] == e.id);
    assert forall|x: u32| ids_of(s).contains(x) implies #[trigger] ids_of(t).contains(x) by {
        let j = choose|j: int| 0 <= j < ids_of(s).len() && ids_of(s)[j] == x;
        let j2 = if j < k { j } else { j + 1 };
        assert(t[j2] == s[j]);
        assert(ids_of(t)[j2] == x);
    }
}

/// Removing the entry of `id` keeps within the list a pool that does not hold `id`.
proof fn lemma_remove_keeps_pool(list: Seq<Entry>, i: int, pool: Seq<u32>, id: u32)
    requires
        0 <= i < list.len(),
        list[i].id == id,
        pool_in_list(pool, list),
        forall|k: int| 0 <= k < pool.len() ==> #[trigger] pool[k] != id,
    ensures
        pool_in_list(pool, list.remove(i)),
{
    let t = list.remove(i);
    assert forall|k: int| 0 <= k < pool.len() implies ids_of(t).contains(#[trigger] pool[k]) by {
        let x = pool[k];
        assert(ids_of(list).contains(x));
        let j = choose|j: int| 0 <= j < ids_of(list).len() && ids_of(list)[j] == x;
        assert(list[j].id == x);
        assert(j != i);
        let j2 = if j < i { j } else { j - 1 };
        assert(t[j2] == list[j]);
        assert(ids_of(t)[j2] == x);
    }
}

/// The play queue: the entries, the current position, the playback mode, the ids
/// already played and the last id handed out.
#[derive(Debug)]
pub struct Queue {
    list: Vec<Entry>,
    pos: Option<usize>,
    mode: QueueMode,
    history: HashSet<u32>,
    next_id: u32,
}

/// What one call of `move_next` does to a queue, from `q0` to `q1`: the entries stay,
/// the position and mode move as `moved_next` says, and in random mode the entry
/// reached is the one of the id that `random_next` plays.
pub open spec fn next_step_of(q0: Queue, q1: Queue) -> bool {
    &&& q1.entries() == q0.entries()
    &&& moved_next(q0.entries(), q0.position(), q0.mode_view(), q1.position(), q1.mode_view())
    &&& (q0.mode_view() matches ModeView::Random(st, pool) ==> ({
        let n = random_next(q0.entries(), st, pool);
        &&& q1.mode_view() == ModeView::Random(n.1, n.2)
        &&& match q1.current_entry() {
            Some(e) => n.0 == Some(e.id),
            None => n.0 is None,
        }
    }))
}

/// What one call of `move_prev` does to a queue, from `q0` to `q1`.
pub open spec fn prev_step_of(q0: Queue, q1: Queue) -> bool {
    &&& q1.entries() == q0.entries()
    &&& q1.mode_view() == q0.mode_view()
    &&& q1.position() == prev_pos(q0.position(), q0.entries().len())
}

impl Queue {
    /// The entries, in order.
    pub closed spec fn entries(&self) -> Seq<Entry> {
        self.list@
    }

    /// The position of the current entry, if any.
    pub closed spec fn position(&self) -> Option<usize> {
        self.pos
    }

    /// The playback mode.
    pub closed spec fn mode_view(&self) -> ModeView {
        self.mode@
    }

    /// The ids that were played before.
    pub closed spec fn played(&self) -> Set<u32> {
        self.history@
    }

    /// The last id handed out.
    pub closed spec fn last_id(&self) -> u32 {
        self.next_id
    }

    /// The current entry, if any.
    pub open spec fn current_entry(&self) -> Option<Entry> {
        match self.position() {
            Some(p) => Some(self.entries()[p as int]),
            None => None,
        }
    }

    /// Well-formedness: the position is valid, ids are distinct, positive and at
    /// most the last id handed out, and the random pool holds only ids of entries.
    pub open spec fn wf(&self) -> bool {
        &&& (self.position() matches Some(p) ==> p < self.entries().len())
        &&& ids_distinct(self.entries())
        &&& mode_fits(self.mode_view(), self.entries())
        &&& forall|i: int|
            0 <= i < self.entries().len() ==> 1 <= #[trigger] self.entries()[i].id <= self.last_id()
    }

    /// An empty queue in sequential mode.
    pub fn new() -> (q: Self)
        ensures
            q.wf(),
            q.entries() == Seq::<Entry>::empty(),
            q.position() is None,
            q.mode_view() == ModeView::Sequential,
            q.played() == Set::<u32>::empty(),
            q.last_id() == 0,
    {
        Queue {
            list: Vec::new(),
            pos: None,
            mode: QueueMode::Sequential,
            history: HashSet::new(),
            next_id: 0,
        }
    }

    /// The position of the first entry with id `id`.
    pub fn find_by_id(&self, id: u32) -> (r: Option<usize>)
        ensures
            r == first_index_of(self.entries(), id),
            is_first_index_of(self.entries(), id, r),
    {
        let n = self.list.len();
        for i in 0..n
            invariant
                n == self.list@.len(),
                forall|j: int| 0 <= j < i ==> #[trigger] self.list@[j].id != id,
        {
            if self.list[i].id == id {
                proof {
                    lemma_first_index_unique(self.list@, id, Some(i));
                    lemma_first_index_exists(self.list@, id);
                }
                return Some(i);
            }
        }
        proof {
            lemma_first_index_unique(self.list@, id, None);
            lemma_first_index_exists(self.list@, id);
        }
        None
    }

    /// The name of the playback mode.
    pub fn mode(&self) -> (r: String)
        ensures
            r@ == mode_name(self.mode_view()),
    {
        match self.mode {
            QueueMode::Sequential => String::from_str("sequential"),
            QueueMode::Single => String::from_str("single"),
            QueueMode::Random(_) => String::from_str("random"),
        }
    }

    /// The current entry, if any.
    pub fn current(&self) -> (r: Option<&Entry>)
        requires
            self.wf(),
        ensures
            match r {
                Some(e) => self.current_entry() == Some(*e),
                None => self.current_entry() is None,
            },
    {
        match self.pos {
            Some(p) => Some(&self.list[p]),
            None => None,
        }
    }

    fn list_ids(&self) -> (r: Vec<u32>)
        ensures
            r@ == ids_of(self.entries()),
    {
        let mut r: Vec<u32> = Vec::new();
        let n = self.list.len();
        for i in 0..n
            invariant
                n == self.list@.len(),
                r@ == ids_of(self.list@.take(i as int)),
        {
            assert(ids_of(self.list@.take(i + 1)) =~= ids_of(self.list@.take(i as int)).push(
                self.list@[i as int].id,
            ));
            r.push(self.list[i].id);
        }
        assert(self.list@.take(n as int) =~= self.list@);
        r
    }

    /// Forgets the current position.
    pub fn reset_pos(&mut self)
        requires
            old(self).wf(),
        ensures
            final(self).wf(),
            final(self).position() is None,
            final(self).entries() == old(self).entries(),
            final(self).mode_view() == old(self).mode_view(),
            final(self).played() == old(self).played(),
            final(self).last_id() == old(self).last_id(),
    {
        self.pos = None;
    }

    /// Records the current entry's id as played.
    pub fn add_current_to_history(&mut self)
        requires
            old(self).wf(),
        ensures
            final(self).wf(),
            final(self).played() == match old(self).current_entry() {
                Some(e) => old(self).played().insert(e.id),
                None => old(self).played(),
            },
            final(self).entries() == old(self).entries(),
            final(self).position() == old(self).position(),
            final(self).mode_view() == old(self).mode_view(),
            final(self).last_id() == old(self).last_id(),
    {
        if let Some(p) = self.pos {
            let id = self.list[p].id;
            self.history.insert(id);
        }
    }

    /// Moves to the next entry as the playback mode decides, and returns it.
    pub fn move_next(&mut self) -> (r: Option<&Entry>)
        requires
            old(self).wf(),
        ensures
            final(self).wf(),
            moved_next(
                old(self).entries(),
                old(self).position(),
                old(self).mode_view(),
                final(self).position(),
                final(self).mode_view(),
            ),
            final(self).entries() == old(self).entries(),
            final(self).played() == old(self).played(),
            final(self).last_id() == old(self).last_id(),
            match r {
                Some(e) => final(self).current_entry() == Some(*e),
                None => final(self).current_entry() is None,
            },
            old(self).mode_view() matches ModeView::Random(st, pool) ==> ({
                let n = random_next(old(self).entries(), st, pool);
                &&& final(self).mode_view() == ModeView::Random(n.1, n.2)
                &&& match r {
                    Some(e) => n.0 == Some(e.id),
                    None => n.0 is None,
                }
            }),
            old(self).mode_view() is Random && old(self).entries().len() > 0 ==> r is Some,
            next_step_of(*old(self), *final(self)),
    {
        let len = self.list.len();
        let mut mode = QueueMode::Sequential;
        std::mem::swap(&mut mode, &mut self.mode);
        match mode {
            QueueMode::Sequential => {
                self.pos = match self.pos {
                    Some(p) => if p < len - 1 {
                        Some(p + 1)
                    } else {
                        None
                    },
                    None => if self.list.len() > 0 {
                        Some(0)
                    } else {
                        None
                    },
                };
                self.mode = QueueMode::Sequential;
            },
            QueueMode::Single => {
                self.pos = None;
                self.mode = QueueMode::Single;
            },
            QueueMode::Random(mut random) => {
                let ghost pool = random.ids@;
                match random.ids.pop() {
                    Some(id) => {
                        proof {
                            assert(pool[pool.len() - 1] == id);
                            lemma_first_index_of_member(self.list@, id);
                            assert(pool_in_list(random.ids@, self.list@)) by {
                                assert forall|i: int| 0 <= i < random.ids@.len() implies ids_of(
                                    self.list@,
                                ).contains(#[trigger] random.ids@[i]) by {
                                    assert(random.ids@[i] == pool[i]);
                                }
                            }
                        }
                        self.pos = self.find_by_id(id);
                        self.mode = QueueMode::Random(random);
                    },
                    None => {
                        if self.list.len() == 0 {
                            self.pos = None;
                            self.mode = QueueMode::Random(random);
                        } else {
                            let ids = self.list_ids();
                            let ghost all = ids@;
                            let mut fresh = Random::new(ids);
                            let ghost sh = fresh.ids@;
                            proof {
                                lemma_shuffle_from_is_permutation(all, all.len() as usize, 0);
                                lemma_shuffle_in(all);
                            }
                            match fresh.ids.pop() {
                                Some(id) => {
                                    proof {
                                        assert(sh[sh.len() - 1] == id);
                                        lemma_first_index_of_member(self.list@, id);
                                        assert(pool_in_list(fresh.ids@, self.list@)) by {
                                            assert forall|i: int| 0 <= i < fresh.ids@.len() implies ids_of(
                                                self.list@,
                                            ).contains(#[trigger] fresh.ids@[i]) by {
                                                assert(fresh.ids@[i] == sh[i]);
                                            }
                                        }
                                    }
                                    self.pos = self.find_by_id(id);
                                },
                                None => {
                                    self.pos = None;
                                },
                            }
                            self.mode = QueueMode::Random(fresh);
                        }
                    },
                }
            },
        }
        self.current()
    }

    /// Moves to the previous entry and returns it: from the first entry there is none,
    /// and with no current entry the last one is taken.
    pub fn move_prev(&mut self) -> (r: Option<&Entry>)
        requires
            old(self).wf(),
        ensures
            final(self).wf(),
            final(self).position() == prev_pos(old(self).position(), old(self).entries().len()),
            final(self).entries() == old(self).entries(),
            final(self).mode_view() == old(self).mode_view(),
            final(self).played() == old(self).played(),
            final(self).last_id() == old(self).last_id(),
            match r {
                Some(e) => final(self).current_entry() == Some(*e),
                None => final(self).current_entry() is None,
            },
            prev_step_of(*old(self), *final(self)),
    {
        let len = self.list.len();
        self.pos = match self.pos {
            Some(p) => if p > 0 {
                Some(p - 1)
            } else {
                None
            },
            None => if len > 0 {
                Some(len - 1)
            } else {
                None
            },
        };
        self.current()
    }

    /// Makes the entry with id `id` current and returns it; in random mode `id` also
    /// leaves the pool. When no entry has that id, the position stays as it was.
    pub fn move_to(&mut self, id: u32) -> (r: Option<&Entry>)
        requires
            old(self).wf(),
        ensures
            final(self).wf(),
            final(self).mode_view() == mode_without(old(self).mode_view(), id),
            ({
                let found = first_index_of(old(self).entries(), id);
                &&& final(self).position() == if found is Some {
                    found
                } else {
                    old(self).position()
                }
                &&& match r {
                    Some(e) => found is Some && final(self).current_entry() == Some(*e),
                    None => found is None,
                }
            }),
            final(self).entries() == old(self).entries(),
            final(self).played() == old(self).played(),
            final(self).last_id() == old(self).last_id(),
    {
        let mut mode = QueueMode::Sequential;
        std::mem::swap(&mut mode, &mut self.mode);
        if let QueueMode::Random(mut random) = mode {
            let ghost pool = random.ids@;
            remove_all(&mut random.ids, id);
            proof {
                lemma_pool_without_in(pool, id, self.list@);
            }
            self.mode = QueueMode::Random(random);
        } else {
            self.mode = mode;
        }
        let found = self.find_by_id(id);
        match found {
            Some(p) => {
                self.pos = Some(p);
                self.current()
            },
            None => None,
        }
    }

    /// Adds `path` under a fresh id: at `pos` when that is a valid index, else at the
    /// end. The current entry stays current. In random mode the id joins the pool at a
    /// pseudo-random place.
    pub fn add(&mut self, path: String, pos: Option<usize>)
        requires
            old(self).wf(),
            old(self).last_id() < u32::MAX,
        ensures
            final(self).wf(),
            final(self).last_id() == old(self).last_id() + 1,
            final(self).entries() == list_after_add(
                old(self).entries(),
                Entry { id: final(self).last_id(), path },
                pos,
            ),
            final(self).position() == pos_after_add(old(self).position(), pos, old(self).entries().len()),
            final(self).current_entry() == old(self).current_entry(),
            final(self).mode_view() == mode_after_add(old(self).mode_view(), final(self).last_id()),
            final(self).played() == old(self).played(),
    {
        self.next_id = self.next_id + 1;
        let id = self.next_id;
        let entry = Entry { id, path };
        let ghost e = entry;
        let len = self.list.len();
        match pos {
            Some(p) => {
                if p < len {
                    self.list.insert(p, entry);
                    if let Some(c) = self.pos {
                        if p <= c {
                            self.pos = Some(c + 1);
                        }
                    }
                } else {
                    self.list.push(entry);
                }
            },
            None => self.list.push(entry),
        }
        assert(self.list@ == list_after_add(old(self).list@, e, pos));
        assert forall|i: int, j: int|
            0 <= i < self.list@.len() && 0 <= j < self.list@.len() && i != j implies
            self.list@[i].id != self.list@[j].id by {
            let o = old(self).list@;
            match pos {
                Some(p) => if p < len {
                    assert(self.list@ == o.insert(p as int, e));
                    if i != p && j != p {
                        let oi = if i < p { i } else { i - 1 };
                        let oj = if j < p { j } else { j - 1 };
                        assert(self.list@[i] == o[oi]);
                        assert(self.list@[j] == o[oj]);
                    } else if i == p {
                        let oj = if j < p { j } else { j - 1 };
                        assert(self.list@[j] == o[oj]);
                    } else {
                        let oi = if i < p { i } else { i - 1 };
                        assert(self.list@[i] == o[oi]);
                    }
                } else {
                    if i < o.len() && j < o.len() {
                        assert(self.list@[i] == o[i]);
                        assert(self.list@[j] == o[j]);
                    } else if i < o.len() {
                        assert(self.list@[i] == o[i]);
                    } else {
                        assert(self.list@[j] == o[j]);
                    }
                },
                None => {
                    if i < o.len() && j < o.len() {
                        assert(self.list@[i] == o[i]);
                        assert(self.list@[j] == o[j]);
                    } else if i < o.len() {
                        assert(self.list@[i] == o[i]);
                    } else {
                        assert(self.list@[j] == o[j]);
                    }
                },
            }
        }
        assert forall|i: int| 0 <= i < self.list@.len() implies 1 <= #[trigger] self.list@[i].id
            <= self.next_id by {
            let o = old(self).list@;
            match pos {
                Some(p) => if p < len {
                    if i < p {
                        assert(self.list@[i] == o[i]);
                    } else if i > p {
                        assert(self.list@[i] == o[i - 1]);
                    }
                } else {
                    if i < o.len() {
                        assert(self.list@[i] == o[i]);
                    }
                },
                None => {
                    if i < o.len() {
                        assert(self.list@[i] == o[i]);
                    }
                },
            }
        }
        let mut mode = QueueMode::Sequential;
        std::mem::swap(&mut mode, &mut self.mode);
        if let QueueMode::Random(mut random) = mode {
            let ghost pool = random.ids@;
            proof {
                lemma_list_after_add_ids(old(self).list@, e, pos);
            }
            let n = random.ids.len();
            if n == 0 {
                random.ids.push(id);
                assert(random.ids@ =~= seq![id]);
            } else {
                let k = random.rng.next_usize(0, n - 1);
                let temp = random.ids[k];
                random.ids.set(k, id);
                random.ids.push(temp);
                proof {
                    assert(ids_of(old(self).list@).contains(pool[k as int]));
                }
            }
            assert forall|i: int| 0 <= i < random.ids@.len() implies ids_of(self.list@).contains(
                #[trigger] random.ids@[i],
            ) by {
                if random.ids@[i] != id {
                    let j = choose|j: int| 0 <= j < pool.len() && pool[j] == random.ids@[i];
                    assert(ids_of(old(self).list@).contains(pool[j]));
                }
            }
            self.mode = QueueMode::Random(random);
        } else {
            self.mode = mode;
        }
    }

    /// Removes the entry with id `id`, if there is one, and takes `id` out of the
    /// random pool. The current entry stays current unless it was the one removed;
    /// returns whether it was.
    pub fn remove(&mut self, id: u32) -> (r: bool)
        requires
            old(self).wf(),
        ensures
            final(self).wf(),
            final(self).entries() == list_after_remove(
                old(self).entries(),
                first_index_of(old(self).entries(), id),
            ),
            final(self).position() == pos_after_remove(
                old(self).position(),
                first_index_of(old(self).entries(), id),
            ),
            r == (first_index_of(old(self).entries(), id) is Some && old(self).position()
                == first_index_of(old(self).entries(), id)),
            !r ==> final(self).current_entry() == old(self).current_entry(),
            final(self).mode_view() == mode_without(old(self).mode_view(), id),
            final(self).played() == old(self).played(),
            final(self).last_id() == old(self).last_id(),
    {
        let mut mode = QueueMode::Sequential;
        std::mem::swap(&mut mode, &mut self.mode);
        if let QueueMode::Random(mut random) = mode {
            let ghost pool = random.ids@;
            remove_all(&mut random.ids, id);
            proof {
                lemma_pool_without_in(pool, id, self.list@);
            }
            self.mode = QueueMode::Random(random);
        } else {
            self.mode = mode;
        }
        let found = self.find_by_id(id);
        if let Some(removed_pos) = found {
            self.list.remove(removed_pos);
            proof {
                match old(self).mode@ {
                    ModeView::Random(st, pool) => {
                        lemma_pool_without(pool, id);
                        lemma_pool_without_in(pool, id, old(self).list@);
                        let pw = pool_without(pool, id);
                        assert forall|k: int| 0 <= k < pw.len() implies #[trigger] pw[k] != id by {}
                        lemma_remove_keeps_pool(old(self).list@, removed_pos as int, pw, id);
                    },
                    _ => {},
                }
            }
            assert forall|i: int, j: int|
                0 <= i < self.list@.len() && 0 <= j < self.list@.len() && i != j implies
                self.list@[i].id != self.list@[j].id by {
                let oi = if i < removed_pos { i } else { i + 1 };
                let oj = if j < removed_pos { j } else { j + 1 };
                assert(self.list@[i] == old(self).list@[oi]);
                assert(self.list@[j] == old(self).list@[oj]);
            }
            assert forall|i: int| 0 <= i < self.list@.len() implies 1 <= #[trigger] self.list@[i].id
                <= self.next_id by {
                let oi = if i < removed_pos { i } else { i + 1 };
                assert(self.list@[i] == old(self).list@[oi]);
            }
            if let Some(cur_pos) = self.pos {
                if cur_pos == removed_pos {
                    self.pos = None;
                    return true;
                } else {
                    if cur_pos > removed_pos {
                        self.pos = Some(cur_pos - 1);
                        assert(self.list@[cur_pos - 1] == old(self).list@[cur_pos as int]);
                    } else {
                        assert(self.list@[cur_pos as int] == old(self).list@[cur_pos as int]);
                    }
                    return false;
                }
            }
        }
        false
    }

    /// Empties the queue, forgets what was played and starts ids from scratch. The
    /// playback mode is kept; in random mode nothing is left to play.
    pub fn clear(&mut self)
        requires
            old(self).wf(),
        ensures
            final(self).wf(),
            final(self).entries() == Seq::<Entry>::empty(),
            final(self).played() == Set::<u32>::empty(),
            final(self).position() is None,
            final(self).last_id() == 0,
            final(self).mode_view() == mode_cleared(old(self).mode_view()),
    {
        self.list.clear();
        self.history.clear();
        self.pos = None;
        self.next_id = 0;
        if let QueueMode::Random(random) = &mut self.mode {
            random.ids.clear();
        }
    }

    /// Switches to random mode. The pool is a shuffle of the ids that are neither
    /// played nor current, or of every id when all of them were played.
    pub fn start_random(&mut self)
        requires
            old(self).wf(),
        ensures
            final(self).wf(),
            ({
                let cur = match old(self).current_entry() {
                    Some(e) => Some(e.id),
                    None => None,
                };
                let sh = shuffle(not_played_ids(old(self).entries(), old(self).played(), cur));
                final(self).mode_view() == ModeView::Random(sh.1, sh.0)
            }),
            final(self).entries() == old(self).entries(),
            final(self).position() == old(self).position(),
            final(self).played() == old(self).played(),
            final(self).last_id() == old(self).last_id(),
    {
        let cur: Option<u32> = match self.pos {
            Some(p) => Some(self.list[p].id),
            None => None,
        };
        let ghost pred = unplayed(self.history@, cur);
        let mut fresh: Vec<u32> = Vec::new();
        let n = self.list.len();
        for i in 0..n
            invariant
                n == self.list@.len(),
                pred == unplayed(self.history@, cur),
                fresh@ == ids_of(self.list@.take(i as int)).filter(pred),
        {
            let id = self.list[i].id;
            proof {
                ids_of(self.list@.take(i as int)).lemma_filter_push(id, pred);
                assert(ids_of(self.list@.take(i + 1)) =~= ids_of(self.list@.take(i as int)).push(id));
            }
            let seen = self.history.contains(&id);
            if !seen && cur != Some(id) {
                fresh.push(id);
            }
        }
        assert(self.list@.take(n as int) =~= self.list@);
        let ids = if fresh.len() == 0 {
            self.list_ids()
        } else {
            fresh
        };
        proof {
            let all = ids_of(self.list@);
            assert forall|i: int| 0 <= i < ids@.len() implies all.contains(#[trigger] ids@[i]) by {
                assert(ids@.contains(ids@[i]));
                if ids@ != all {
                    assert(all.filter(pred).contains(ids@[i]));
                    all.lemma_filter_contains_rev(pred, ids@[i]);
                }
            }
            lemma_shuffle_in(ids@);
            let sh = shuffle(ids@).0;
            assert forall|i: int| 0 <= i < sh.len() implies all.contains(#[trigger] sh[i]) by {
                assert(ids@.contains(sh[i]));
                let k = choose|k: int| 0 <= k < ids@.len() && ids@[k] == sh[i];
                assert(all.contains(ids@[k]));
            }
        }
        self.mode = QueueMode::Random(Random::new(ids));
    }

    /// Switches to sequential mode.
    pub fn start_sequential(&mut self)
        requires
            old(self).wf(),
        ensures
            final(self).wf(),
            final(self).mode_view() == ModeView::Sequential,
            final(self).entries() == old(self).entries(),
            final(self).position() == old(self).position(),
            final(self).played() == old(self).played(),
            final(self).last_id() == old(self).last_id(),
    {
        self.mode = QueueMode::Sequential;
    }

    /// Switches to single mode: playback stops after the current song.
    pub fn start_single(&mut self)
        requires
            old(self).wf(),
        ensures
            final(self).wf(),
            final(self).mode_view() == ModeView::Single,
            final(self).entries() == old(self).entries(),
            final(self).position() == old(self).position(),
            final(self).played() == old(self).played(),
            final(self).last_id() == old(self).last_id(),
    {
        self.mode = QueueMode::Single;
    }

    /// All entries, in order.
    pub fn inner(&self) -> (r: &[Entry])
        ensures
            r@ == self.entries(),
    {
        self.list.as_slice()
    }
}

impl Default for Queue {
    fn default() -> (q: Self)
        ensures
            q.wf(),
            q.entries() == Seq::<Entry>::empty(),
            q.position() is None,
            q.mode_view() == ModeView::Sequential,
            q.played() == Set::<u32>::empty(),
            q.last_id() == 0,
    {
        Queue::new()
    }
}

/// Removing the entry that was just added gives back the list as it was before,
/// wherever the entry was put.
pub proof fn lemma_remove_undoes_add(s: Seq<Entry>, e: Entry, pos: Option<usize>)
    requires
        s.len() < usize::MAX,
        forall|i: int| 0 <= i < s.len() ==> #[trigger] s[i].id != e.id,
    ensures
        list_after_remove(
            list_after_add(s, e, pos),
            first_index_of(list_after_add(s, e, pos), e.id),
        ) == s,
{
    let t = list_after_add(s, e, pos);
    let k: usize = match pos {
        Some(p) => if p < s.len() {
            p
        } else {
            s.len() as usize
        },
        None => s.len() as usize,
    };
    assert(t[k as int] == e);
    assert forall|j: int| 0 <= j < k implies #[trigger] t[j].id != e.id by {
        assert(t[j] == s[j]);
    }
    assert(is_first_index_of(t, e.id, Some(k)));
    lemma_first_index_unique(t, e.id, Some(k));
    assert(t.remove(k as int) =~= s);
}

/// In sequential mode, stepping forward from an entry that is not the last one and
/// then back returns to that entry.
pub proof fn lemma_next_then_prev_returns(p: usize, len: nat)
    requires
        p + 1 < len,
        len <= usize::MAX,
    ensures
        prev_pos(next_pos_sequential(Some(p), len), len) == Some(p),
{
}

/// Adding an id in random mode keeps every id of the pool and adds the new one.
pub proof fn lemma_add_keeps_pool(state: usize, pool: Seq<u32>, id: u32)
    ensures
        pool_after_add(state, pool, id).1.to_multiset() == pool.to_multiset().insert(id),
{
    broadcast use vstd::seq_lib::to_multiset_update;
    broadcast use vstd::multiset::group_multiset_properties;

    if pool.len() == 0 {
        assert(seq![id] =~= Seq::<u32>::empty().push(id));
        assert(Seq::<u32>::empty().to_multiset() =~= vstd::multiset::Multiset::<u32>::empty());
        assert(pool =~= Seq::<u32>::empty());
    } else {
        let s = rng_step(state as int);
        let k = s % (pool.len() as int);
        assert(pool.contains(pool[k]));
        assert(pool.update(k, id).push(pool[k]).to_multiset() =~= pool.to_multiset().insert(id));
    }
}

/// The ids a run plays, as plain ids: those of a pool played from its end.
pub open spec fn played_from(pool: Seq<u32>) -> Seq<Option<u32>> {
    pool.reverse().map_values(|x: u32| Some(x))
}

/// Random mode plays out its pool before it refills it: as many steps as the pool
/// holds ids play exactly these ids, the last one first, so every id of the pool
/// once.
pub proof fn lemma_random_plays_out_pool(list: Seq<Entry>, st: usize, pool: Seq<u32>)
    ensures
        random_run(list, st, pool, pool.len()) == played_from(pool),
        pool.reverse().to_multiset() == pool.to_multiset(),
    decreases pool.len(),
{
    pool.lemma_reverse_to_multiset();
    if pool.len() > 0 {
        let rest = pool.drop_last();
        lemma_random_plays_out_pool(list, st, rest);
        assert(played_from(pool) =~= seq![Some(pool.last())] + played_from(rest));
    } else {
        assert(played_from(pool) =~= Seq::<Option<u32>>::empty());
    }
}

/// Keeping the entries that pass a test keeps them distinct.
proof fn lemma_filter_no_duplicates(s: Seq<u32>, pred: spec_fn(u32) -> bool)
    requires
        s.no_duplicates(),
    ensures
        s.filter(pred).no_duplicates(),
    decreases s.len(),
{
    if s.len() > 0 {
        let t = s.drop_last();
        let x = s.last();
        assert(t.no_duplicates());
        lemma_filter_no_duplicates(t, pred);
        t.lemma_filter_push(x, pred);
        assert(t.push(x) =~= s);
        if pred(x) {
            assert(!t.filter(pred).contains(x)) by {
                if t.filter(pred).contains(x) {
                    t.lemma_filter_contains_rev(pred, x);
                    let j = choose|j: int| 0 <= j < t.len() && t[j] == x;
                    assert(s[j] == s[s.len() - 1]);
                }
            }
            let f = t.filter(pred);
            assert forall|i: int, j: int| 0 <= i < f.push(x).len() && 0 <= j < f.push(x).len() && i != j
                implies f.push(x)[i] != f.push(x)[j] by {
                if i < f.len() && j < f.len() {
                } else if i < f.len() {
                    assert(f.contains(f[i]));
                } else {
                    assert(f.contains(f[j]));
                }
            }
        }
    } else {
        assert(s.filter(pred) =~= s);
    }
}

/// After a switch to random mode, as many steps as there are songs not yet played
/// (or, when all were played, songs in the queue) play each of these songs once:
/// the ids played are a permutation of them, and with distinct ids no song repeats.
pub proof fn lemma_random_round_after_start(list: Seq<Entry>, played: Set<u32>, cur: Option<u32>)
    ensures
        ({
            let u = not_played_ids(list, played, cur);
            let sh = shuffle(u);
            &&& random_run(list, sh.1, sh.0, u.len()) == played_from(sh.0)
            &&& sh.0.reverse().to_multiset() == u.to_multiset()
            &&& ids_distinct(list) ==> sh.0.reverse().no_duplicates()
        }),
{
    let u = not_played_ids(list, played, cur);
    let sh = shuffle(u);
    lemma_shuffle_in(u);
    lemma_random_plays_out_pool(list, sh.1, sh.0);
    if ids_distinct(list) {
        let all = ids_of(list);
        assert(all.no_duplicates()) by {
            assert forall|i: int, j: int| 0 <= i < all.len() && 0 <= j < all.len() && i != j implies all[i]
                != all[j] by {
                assert(all[i] == list[i].id);
                assert(all[j] == list[j].id);
            }
        }
        lemma_filter_no_duplicates(all, unplayed(played, cur));
        assert(u.no_duplicates());
        u.lemma_multiset_has_no_duplicates();
        sh.0.reverse().lemma_multiset_has_no_duplicates_conv();
    }
}

/// An id that `move_to` took out of the random pool is not played again while the
/// pool lasts.
pub proof fn lemma_moved_to_not_replayed(list: Seq<Entry>, st: usize, pool: Seq<u32>, id: u32)
    ensures
        ({
            let pw = pool_without(pool, id);
            forall|i: int| 0 <= i < pw.len() ==> #[trigger] random_run(list, st, pw, pw.len())[i] != Some(id)
        }),
{
    let pw = pool_without(pool, id);
    lemma_pool_without(pool, id);
    lemma_random_plays_out_pool(list, st, pw);
    assert forall|i: int| 0 <= i < pw.len() implies #[trigger] random_run(list, st, pw, pw.len())[i] != Some(id) by {
        assert(random_run(list, st, pw, pw.len())[i] == Some(pw.reverse()[i]));
        assert(pw.reverse()[i] == pw[pw.len() - 1 - i]);
    }
}

/// The name of a mode tells the mode apart: `sequential` is sequential mode and
/// `random` is random mode.
pub proof fn lemma_mode_name(m: ModeView)
    ensures
        mode_name(m) == "sequential"@ <==> m is Sequential,
        mode_name(m) == "random"@ <==> m is Random,
        mode_name(m) == "single"@ <==> m is Single,
{
    reveal_strlit("sequential");
    reveal_strlit("random");
    reveal_strlit("single");
    assert("sequential"@.len() != "random"@.len());
    assert("sequential"@[1] != "single"@[1]);
    assert("random"@[0] != "single"@[0]);
}

/// In single mode a call of `move_next` leaves no entry current: playback stops after
/// the song; the mode and the entries stay.
pub proof fn lemma_single_mode_stops(q0: Queue, q1: Queue)
    requires
        q0.mode_view() is Single,
        next_step_of(q0, q1),
    ensures
        q1.position() is None,
        q1.current_entry() is None,
        q1.mode_view() is Single,
        q1.entries() == q0.entries(),
{
}

/// In sequential mode a call of `move_next` makes the following entry current: the
/// first one when none was, none after the last one.
pub proof fn lemma_sequential_mode_steps(q0: Queue, q1: Queue)
    requires
        q0.mode_view() is Sequential,
        q0.entries().len() <= usize::MAX,
        next_step_of(q0, q1),
    ensures
        q1.mode_view() is Sequential,
        q1.entries() == q0.entries(),
        match q0.position() {
            Some(p) => if p + 1 < q0.entries().len() {
                q1.current_entry() == Some(q0.entries()[p + 1])
            } else {
                q1.current_entry() is None
            },
            None => if q0.entries().len() > 0 {
                q1.current_entry() == Some(q0.entries()[0])
            } else {
                q1.current_entry() is None
            },
        },
{
}

/// The pool that random mode starts with holds the ids of the entries that were
/// neither played nor current; when every entry was played or is current, it holds
/// the ids of all entries. It holds each such id as often as the entries do.
pub proof fn lemma_random_pool_is_unplayed(list: Seq<Entry>, played: Set<u32>, cur: Option<u32>)
    ensures
        ({
            let pool = shuffle(not_played_ids(list, played, cur)).0;
            let fresh_left = exists|j: int| 0 <= j < list.len() && !played.contains(#[trigger] list[j].id) && cur != Some(list[j].id);
            &&& fresh_left ==> forall|x: u32| #[trigger] pool.contains(x) <==> (ids_of(list).contains(x) && !played.contains(x)
                && cur != Some(x))
            &&& !fresh_left ==> forall|x: u32| #[trigger] pool.contains(x) <==> ids_of(list).contains(x)
        }),
{
    broadcast use vstd::seq_lib::to_multiset_contains;

    let all = ids_of(list);
    let pred = unplayed(played, cur);
    let fresh = all.filter(pred);
    let u = not_played_ids(list, played, cur);
    let pool = shuffle(u).0;
    lemma_shuffle_in(u);
    assert forall|x: u32| #[trigger] pool.contains(x) <==> u.contains(x) by {
        assert(pool.contains(x) <==> pool.to_multiset().count(x) > 0);
        assert(u.contains(x) <==> u.to_multiset().count(x) > 0);
    }
    let fresh_left = exists|j: int| 0 <= j < list.len() && !played.contains(#[trigger] list[j].id) && cur != Some(list[j].id);
    if fresh_left {
        let j = choose|j: int| 0 <= j < list.len() && !played.contains(#[trigger] list[j].id) && cur != Some(list[j].id);
        assert(all[j] == list[j].id);
        all.lemma_filter_contains(pred, j);
        assert(fresh.len() > 0);
        assert forall|x: u32| #[trigger] pool.contains(x) <==> (all.contains(x) && !played.contains(x) && cur != Some(x)) by {
            if fresh.contains(x) {
                all.lemma_filter_contains_rev(pred, x);
                let k = choose|k: int| 0 <= k < fresh.len() && fresh[k] == x;
                all.lemma_filter_pred(pred, k);
            }
            if all.contains(x) && !played.contains(x) && cur != Some(x) {
                let k = choose|k: int| 0 <= k < all.len() && all[k] == x;
                all.lemma_filter_contains(pred, k);
            }
        }
    } else {
        if fresh.len() > 0 {
            all.lemma_filter_pred(pred, 0);
            assert(fresh.contains(fresh[0]));
            all.lemma_filter_contains_rev(pred, fresh[0]);
            let k = choose|k: int| 0 <= k < all.len() && all[k] == fresh[0];
            assert(all[k] == list[k].id);
            assert(!played.contains(list[k].id) && cur != Some(list[k].id));
        }
    }
}

/// In random mode an added id joins the pool: the pool afterwards holds the ids it
/// held, as often, and the new id once more. Other modes stay as they are.
pub proof fn lemma_added_id_joins_pool(m: ModeView, id: u32)
    ensures
        match m {
            ModeView::Random(st, pool) => mode_after_add(m, id) matches ModeView::Random(_, p2)
                && p2.to_multiset() == pool.to_multiset().insert(id),
            _ => mode_after_add(m, id) == m,
        },
{
    if let ModeView::Random(st, pool) = m {
        lemma_add_keeps_pool(st, pool, id);
    }
}

/// In sequential mode, `move_prev` right after `move_next` from an entry that is
/// not the last one returns to that entry.
pub proof fn lemma_prev_after_next_returns(q0: Queue, q1: Queue, q2: Queue)
    requires
        q0.wf(),
        q0.mode_view() is Sequential,
        q0.position() matches Some(p) && p + 1 < q0.entries().len(),
        q0.entries().len() <= usize::MAX,
        next_step_of(q0, q1),
        prev_step_of(q1, q2),
    ensures
        q2.current_entry() == q0.current_entry(),
        q2.current_entry() is Some,
{
    let p = q0.position()->0;
    lemma_next_then_prev_returns(p, q0.entries().len());
}

/// Random mode over repeated calls of `move_next`: from a pool, as many calls as
/// the pool holds ids each reach an entry, those of the pool's ids from its end on,
/// so every id of the pool once; the entries stay as they were.
pub proof fn lemma_random_calls_play_pool(qs: Seq<Queue>, st: usize, pool: Seq<u32>)
    requires
        qs.len() == pool.len() + 1,
        qs[0].mode_view() == ModeView::Random(st, pool),
        forall|i: int| 0 <= i < pool.len() ==> next_step_of(#[trigger] qs[i], qs[i + 1]),
    ensures
        forall|i: int|
            0 <= i < pool.len() ==> ((#[trigger] qs[i + 1]).current_entry() matches Some(e) && e.id == pool[pool.len() - 1 - i]),
        qs[qs.len() - 1].entries() == qs[0].entries(),
{
    lemma_random_calls_prefix(qs, st, pool, qs.len() - 1);
    assert forall|i: int|
        0 <= i < pool.len() implies ((#[trigger] qs[i + 1]).current_entry() matches Some(e) && e.id == pool[pool.len() - 1 - i]) by {
        lemma_random_calls_prefix(qs, st, pool, i);
        let rest = pool.take(pool.len() - i);
        assert(next_step_of(qs[i], qs[i + 1]));
        assert(rest.len() > 0);
        assert(rest.last() == pool[pool.len() - 1 - i]);
    }
}

proof fn lemma_random_calls_prefix(qs: Seq<Queue>, st: usize, pool: Seq<u32>, k: int)
    requires
        qs.len() == pool.len() + 1,
        0 <= k <= pool.len(),
        qs[0].mode_view() == ModeView::Random(st, pool),
        forall|i: int| 0 <= i < pool.len() ==> next_step_of(#[trigger] qs[i], qs[i + 1]),
    ensures
        qs[k].mode_view() == ModeView::Random(st, pool.take(pool.len() - k)),
        qs[k].entries() == qs[0].entries(),
    decreases k,
{
    if k == 0 {
        assert(pool.take(pool.len() - k) =~= pool);
    } else {
        lemma_random_calls_prefix(qs, st, pool, k - 1);
        let j = k - 1;
        assert(next_step_of(qs[j], qs[j + 1]));
        let rest = pool.take(pool.len() - j);
        assert(rest.drop_last() =~= pool.take(pool.len() - k));
    }
}

/// After `move_to` took `id` out of the random pool, the calls of `move_next` that
/// play out the pool never reach the entry of `id`.
pub proof fn lemma_moved_to_calls_skip(qs: Seq<Queue>, st: usize, pool: Seq<u32>, id: u32)
    requires
        qs.len() == pool_without(pool, id).len() + 1,
        qs[0].mode_view() == ModeView::Random(st, pool_without(pool, id)),
        forall|i: int| 0 <= i < pool_without(pool, id).len() ==> next_step_of(#[trigger] qs[i], qs[i + 1]),
    ensures
        forall|i: int|
            0 <= i < pool_without(pool, id).len() ==> ((#[trigger] qs[i + 1]).current_entry() matches Some(e) && e.id != id),
{
    let pw = pool_without(pool, id);
    lemma_pool_without(pool, id);
    lemma_random_calls_play_pool(qs, st, pw);
    assert forall|i: int| 0 <= i < pw.len() implies ((#[trigger] qs[i + 1]).current_entry() matches Some(e) && e.id != id) by {
        assert(pw[pw.len() - 1 - i] != id);
    }
}


impl Queue {
    /// The ids played before, in some order.
    pub fn played_ids(&self) -> (r: Vec<u32>)
        ensures
            r@.to_set() == self.played(),
    {
        let mut r: Vec<u32> = Vec::new();
        for x in it: self.history.iter()
            invariant
                r@.to_set() == it.seq().take(it.index() as int).unref().to_set(),
                it.seq().unref().to_set() == self.history@,
                it.index() == it.seq().len() ==> r@.to_set() == self.history@,
        {
            assert(it.seq().take(it.index() + 1) =~= it.seq().take(it.index() as int).push(x));
            assert(it.seq().take(it.index() as int).push(x).unref()
                =~= it.seq().take(it.index() as int).unref().push(*x));
            proof {
                it.seq().take(it.index() as int).unref().lemma_push_to_set_commute(*x);
                r@.lemma_push_to_set_commute(*x);
            }
            r.push(*x);
            assert(it.index() + 1 == it.seq().len() ==> it.seq().take(it.seq().len() as int)
                =~= it.seq());
        }
        r
    }

    /// The last id handed out.
    pub fn last_id_value(&self) -> (r: u32)
        ensures
            r == self.last_id(),
    {
        self.next_id
    }

    /// A copy of the playback mode.
    pub fn mode_of(&self) -> (r: QueueMode)
        ensures
            r@ == self.mode_view(),
    {
        self.mode.clone()
    }

    /// A queue rebuilt from saved parts, with no current position: refused unless
    /// the ids are distinct and between 1 and `last_id`, and a random pool holds only
    /// ids of the entries.
    pub fn restore(entries: Vec<Entry>, mode: QueueMode, played: Vec<u32>, last_id: u32) -> (r: Option<Queue>)
        ensures
            r is Some <==> (ids_distinct(entries@) && (forall|i: int|
                0 <= i < entries@.len() ==> 1 <= #[trigger] entries@[i].id <= last_id) && mode_fits(
                mode@,
                entries@,
            )),
            r matches Some(q) ==> {
                &&& q.wf()
                &&& q.entries() == entries@
                &&& q.position() is None
                &&& q.mode_view() == mode@
                &&& q.played() == played@.to_set()
                &&& q.last_id() == last_id
            },
    {
        let mut seen: HashSet<u32> = HashSet::new();
        let n = entries.len();
        let mut i: usize = 0;
        while i < n
            invariant
                n == entries@.len(),
                i <= n,
                seen@ == Set::new(|x: u32| exists|j: int| 0 <= j < i && entries@[j].id == x),
                forall|a: int, b: int| 0 <= a < i && 0 <= b < i && a != b ==> entries@[a].id != entries@[b].id,
                forall|j: int| 0 <= j < i ==> 1 <= #[trigger] entries@[j].id <= last_id,
            decreases n - i,
        {
            let id = entries[i].id;
            if id == 0 || id > last_id {
                return None;
            }
            if seen.contains(&id) {
                proof {
                    let j = choose|j: int| 0 <= j < i && entries@[j].id == id;
                    assert(entries@[j].id == entries@[i as int].id);
                }
                return None;
            }
            seen.insert(id);
            assert(seen@ =~= Set::new(|x: u32| exists|j: int| 0 <= j < i + 1 && entries@[j].id == x)) by {
                assert forall|x: u32| seen@.contains(x) implies exists|j: int| 0 <= j < i + 1 && entries@[j].id == x by {
                    if x == id {
                        assert(entries@[i as int].id == x);
                    }
                }
            }
            i = i + 1;
        }
        if let QueueMode::Random(ref random) = mode {
            let m = random.ids.len();
            let mut t: usize = 0;
            while t < m
                invariant
                    m == random.ids@.len(),
                    mode@ == ModeView::Random(random.rng.0, random.ids@),
                    t <= m,
                    n == entries@.len(),
                    seen@ == Set::new(|x: u32| exists|j: int| 0 <= j < n && entries@[j].id == x),
                    forall|u: int| 0 <= u < t ==> ids_of(entries@).contains(#[trigger] random.ids@[u]),
                decreases m - t,
            {
                let x = random.ids[t];
                if !seen.contains(&x) {
                    proof {
                        if ids_of(entries@).contains(x) {
                            let j = choose|j: int| 0 <= j < ids_of(entries@).len() && ids_of(entries@)[j] == x;
                            assert(entries@[j].id == x);
                            assert(seen@.contains(x));
                        }
                        assert(!pool_in_list(random.ids@, entries@));
                        assert(mode@ == ModeView::Random(random.rng.0, random.ids@));
                        assert(!mode_fits(mode@, entries@));
                    }
                    return None;
                }
                proof {
                    assert(seen@.contains(x));
                    let j = choose|j: int| 0 <= j < n && entries@[j].id == x;
                    assert(ids_of(entries@)[j] == x);
                }
                t = t + 1;
            }
            assert(pool_in_list(random.ids@, entries@));
        }
        assert(mode_fits(mode@, entries@));
        let mut history: HashSet<u32> = HashSet::new();
        let mut k: usize = 0;
        while k < played.len()
            invariant
                k <= played@.len(),
                history@ == played@.take(k as int).to_set(),
            decreases played@.len() - k,
        {
            proof {
                assert(played@.take(k + 1) =~= played@.take(k as int).push(played@[k as int]));
                played@.take(k as int).lemma_push_to_set_commute(played@[k as int]);
            }
            history.insert(played[k]);
            k = k + 1;
        }
        assert(played@.take(played@.len() as int) =~= played@);
        Some(Queue { list: entries, pos: None, mode, history, next_id: last_id })
    }
}

impl Clone for Queue {
    fn clone(&self) -> (res: Self)
        ensures
            res.entries() == self.entries(),
            res.position() == self.position(),
            res.mode_view() == self.mode_view(),
            res.played() == self.played(),
            res.last_id() == self.last_id(),
    {
        let list = self.list.clone();
        assert(list@ =~= self.list@);
        let mut history: HashSet<u32> = HashSet::new();
        for x in it: self.history.iter()
            invariant
                history@ == it.seq().take(it.index() as int).unref().to_set(),
                it.seq().unref().to_set() == self.history@,
                it.index() == it.seq().len() ==> history@ == self.history@,
        {
            assert(it.seq().take(it.index() + 1) =~= it.seq().take(it.index() as int).push(x));
            assert(it.seq().take(it.index() as int).push(x).unref()
                =~= it.seq().take(it.index() as int).unref().push(*x));
            proof {
                it.seq().take(it.index() as int).unref().lemma_push_to_set_commute(*x);
            }
            history.insert(*x);
            assert(it.index() + 1 == it.seq().len() ==> it.seq().take(it.seq().len() as int)
                =~= it.seq());
        }
        Queue { list, pos: self.pos, mode: self.mode.clone(), history, next_id: self.next_id }
    }
}

} // verus!
