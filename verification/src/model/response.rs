use vstd::prelude::*;
use vstd::string::StringExecFns;

use crate::model::json::{
    fields_view, get, json_clone, json_eq, lookup, Json, JsonView,
};
use crate::text::str_eq;

verus! {

/// The fields of an object once `key` is set to `value`: the first field with that
/// key takes the new value; without one, the field goes at the end.
pub open spec fn object_insert(f: Seq<(Seq<char>, JsonView)>, key: Seq<char>, value: JsonView) -> Seq<
    (Seq<char>, JsonView),
>
    decreases f.len(),
{
    if f.len() == 0 {
        seq![(key, value)]
    } else if f[0].0 == key {
        f.update(0, (key, value))
    } else {
        seq![f[0]] + object_insert(f.drop_first(), key, value)
    }
}

/// The fields of `new` whose value `old` does not hold under the same key, in order.
pub open spec fn diff_fields(new: Seq<(Seq<char>, JsonView)>, old: Seq<(Seq<char>, JsonView)>) -> Seq<
    (Seq<char>, JsonView),
>
    decreases new.len(),
{
    if new.len() == 0 {
        Seq::empty()
    } else {
        let rest = diff_fields(new.drop_last(), old);
        if lookup(old, new.last().0) == Some(new.last().1) {
            rest
        } else {
            rest.push(new.last())
        }
    }
}


/// No two fields share a key.
pub open spec fn keys_unique(f: Seq<(Seq<char>, JsonView)>) -> bool {
    forall|i: int, j: int| 0 <= i < f.len() && 0 <= j < f.len() && i != j ==> f[i].0 != f[j].0
}

/// The value of a key found at `i` in fields with unique keys.
proof fn lemma_lookup_unique(f: Seq<(Seq<char>, JsonView)>, i: int)
    requires
        keys_unique(f),
        0 <= i < f.len(),
    ensures
        lookup(f, f[i].0) == Some(f[i].1),
    decreases f.len(),
{
    if i > 0 {
        let t = f.drop_first();
        assert(f[0].0 != f[i].0);
        assert(keys_unique(t)) by {
            assert forall|a: int, b: int| 0 <= a < t.len() && 0 <= b < t.len() && a != b implies t[a].0 != t[b].0 by {
                assert(t[a] == f[a + 1] && t[b] == f[b + 1]);
            }
        }
        assert(t[i - 1] == f[i]);
        lemma_lookup_unique(t, i - 1);
    }
}

/// An answer compared with itself has no differing field, when its keys are unique.
pub proof fn lemma_diff_with_self(f: Seq<(Seq<char>, JsonView)>)
    requires
        keys_unique(f),
    ensures
        diff_fields(f, f).len() == 0,
{
    lemma_diff_with_self_prefix(f, f.len() as int);
    assert(f.take(f.len() as int) =~= f);
}

proof fn lemma_diff_with_self_prefix(f: Seq<(Seq<char>, JsonView)>, n: int)
    requires
        keys_unique(f),
        0 <= n <= f.len(),
    ensures
        diff_fields(f.take(n), f).len() == 0,
    decreases n,
{
    if n > 0 {
        lemma_diff_with_self_prefix(f, n - 1);
        assert(f.take(n).drop_last() =~= f.take(n - 1));
        assert(f.take(n).last() == f[n - 1]);
        lemma_lookup_unique(f, n - 1);
    }
}

/// Compared with an empty answer, every field differs: the first answer holds all
/// of them.
pub proof fn lemma_diff_with_empty(f: Seq<(Seq<char>, JsonView)>)
    ensures
        diff_fields(f, Seq::empty()) == f,
    decreases f.len(),
{
    if f.len() > 0 {
        lemma_diff_with_empty(f.drop_last());
        assert(f.drop_last().push(f.last()) =~= f);
    }
}

/// Setting a key keeps the keys unique.
pub proof fn lemma_insert_keeps_keys_unique(f: Seq<(Seq<char>, JsonView)>, key: Seq<char>, value: JsonView)
    requires
        keys_unique(f),
    ensures
        keys_unique(object_insert(f, key, value)),
    decreases f.len(),
{
    if f.len() > 0 && f[0].0 != key {
        let t = f.drop_first();
        assert(keys_unique(t)) by {
            assert forall|a: int, b: int| 0 <= a < t.len() && 0 <= b < t.len() && a != b implies t[a].0 != t[b].0 by {
                assert(t[a] == f[a + 1] && t[b] == f[b + 1]);
            }
        }
        lemma_insert_keeps_keys_unique(t, key, value);
        let r = object_insert(t, key, value);
        lemma_insert_keys(t, key, value);
        let whole = seq![f[0]] + r;
        assert forall|a: int, b: int| 0 <= a < whole.len() && 0 <= b < whole.len() && a != b implies whole[a].0 != whole[b].0 by {
            if a == 0 && b > 0 {
                assert(whole[b] == r[b - 1]);
                assert(r[b - 1].0 == key || exists|k: int| 0 <= k < t.len() && t[k].0 == r[b - 1].0);
                if r[b - 1].0 != key {
                    let k = choose|k: int| 0 <= k < t.len() && t[k].0 == r[b - 1].0;
                    assert(t[k] == f[k + 1]);
                }
            } else if b == 0 && a > 0 {
                assert(whole[a] == r[a - 1]);
                assert(r[a - 1].0 == key || exists|k: int| 0 <= k < t.len() && t[k].0 == r[a - 1].0);
                if r[a - 1].0 != key {
                    let k = choose|k: int| 0 <= k < t.len() && t[k].0 == r[a - 1].0;
                    assert(t[k] == f[k + 1]);
                }
            } else if a > 0 && b > 0 {
                assert(whole[a] == r[a - 1] && whole[b] == r[b - 1]);
            }
        }
    } else if f.len() > 0 {
        let r = f.update(0, (key, value));
        assert forall|a: int, b: int| 0 <= a < r.len() && 0 <= b < r.len() && a != b implies r[a].0 != r[b].0 by {
            assert(f[a].0 != f[b].0);
        }
    }
}

/// The keys after setting `key` are those before, and `key`.
proof fn lemma_insert_keys(f: Seq<(Seq<char>, JsonView)>, key: Seq<char>, value: JsonView)
    ensures
        forall|i: int| 0 <= i < object_insert(f, key, value).len() ==> (#[trigger] object_insert(f, key, value)[i]).0 == key
            || exists|k: int| 0 <= k < f.len() && f[k].0 == object_insert(f, key, value)[i].0,
    decreases f.len(),
{
    let r = object_insert(f, key, value);
    if f.len() > 0 && f[0].0 != key {
        let t = f.drop_first();
        lemma_insert_keys(t, key, value);
        let rt = object_insert(t, key, value);
        assert forall|i: int| 0 <= i < r.len() implies (#[trigger] r[i]).0 == key || exists|k: int| 0 <= k < f.len() && f[k].0 == r[i].0 by {
            if i == 0 {
                assert(f[0].0 == r[0].0);
            } else {
                assert(r[i] == rt[i - 1]);
                if rt[i - 1].0 != key {
                    let k = choose|k: int| 0 <= k < t.len() && t[k].0 == rt[i - 1].0;
                    assert(f[k + 1].0 == r[i].0);
                }
            }
        }
    } else if f.len() > 0 {
        assert forall|i: int| 0 <= i < r.len() implies (#[trigger] r[i]).0 == key || exists|k: int| 0 <= k < f.len() && f[k].0 == r[i].0 by {
            if i > 0 {
                assert(f[i].0 == r[i].0);
            }
        }
    }
}

/// The fields of a successful answer.
pub open spec fn ok_fields() -> Seq<(Seq<char>, JsonView)> {
    seq![("status"@, JsonView::Str("ok"@))]
}

/// The fields that `diff_fields` keeps all come from `new`, and with unique keys in
/// `new` they keep unique keys.
proof fn lemma_diff_keeps_keys_unique(new: Seq<(Seq<char>, JsonView)>, old: Seq<(Seq<char>, JsonView)>)
    ensures
        forall|k: int| 0 <= k < diff_fields(new, old).len() ==> new.contains(#[trigger] diff_fields(new, old)[k]),
        keys_unique(new) ==> keys_unique(diff_fields(new, old)),
    decreases new.len(),
{
    if new.len() > 0 {
        let t = new.drop_last();
        let x = new.last();
        lemma_diff_keeps_keys_unique(t, old);
        let rest = diff_fields(t, old);
        assert forall|k: int| 0 <= k < diff_fields(new, old).len() implies new.contains(#[trigger] diff_fields(new, old)[k]) by {
            if k < rest.len() {
                assert(t.contains(rest[k]));
                let j = choose|j: int| 0 <= j < t.len() && t[j] == rest[k];
                assert(new[j] == t[j]);
            } else {
                assert(new[new.len() - 1] == x);
            }
        }
        if keys_unique(new) {
            assert(keys_unique(t)) by {
                assert forall|a: int, b: int| 0 <= a < t.len() && 0 <= b < t.len() && a != b implies t[a].0 != t[b].0 by {
                    assert(t[a] == new[a] && t[b] == new[b]);
                }
            }
            if lookup(old, x.0) != Some(x.1) {
                let d = rest.push(x);
                assert forall|a: int, b: int| 0 <= a < d.len() && 0 <= b < d.len() && a != b implies d[a].0 != d[b].0 by {
                    if a < rest.len() && b < rest.len() {
                    } else if a < rest.len() {
                        assert(t.contains(rest[a]));
                        let j = choose|j: int| 0 <= j < t.len() && t[j] == rest[a];
                        assert(new[j] == t[j]);
                    } else {
                        assert(t.contains(rest[b]));
                        let j = choose|j: int| 0 <= j < t.len() && t[j] == rest[b];
                        assert(new[j] == t[j]);
                    }
                }
            }
        }
    }
}

/// The fields of a failed answer, with the reason.
pub open spec fn err_fields(reason: Seq<char>) -> Seq<(Seq<char>, JsonView)> {
    seq![("status"@, JsonView::Str("err"@)), ("reason"@, JsonView::Str(reason))]
}

/// The answer to a request: a JSON object, which holds `status` (`ok` or `err`),
/// `reason` when it failed, and what the request asked for.
#[derive(Debug)]
pub struct Response(Vec<(String, Json)>);

impl View for Response {
    type V = Seq<(Seq<char>, JsonView)>;

    closed spec fn view(&self) -> Seq<(Seq<char>, JsonView)> {
        fields_view(self.0@)
    }
}

impl Default for Response {
    /// An empty object.
    fn default() -> (r: Self)
        ensures
            r@ == Seq::<(Seq<char>, JsonView)>::empty(),
            r.wf(),
    {
        let r = Response(Vec::new());
        assert(r@ =~= Seq::<(Seq<char>, JsonView)>::empty());
        r
    }
}

impl Response {
    /// No two fields of the answer share a key. Every answer that this type builds
    /// keeps it; one changed through `inner_mut` keeps it only if the change does.
    pub open spec fn wf(&self) -> bool {
        keys_unique(self@)
    }

    /// The fields of the object.
    pub fn inner(&self) -> (r: &Vec<(String, Json)>)
        ensures
            fields_view(r@) == self@,
    {
        &self.0
    }

    /// The fields of the object, to change in place.
    pub fn inner_mut(&mut self) -> (r: &mut Vec<(String, Json)>)
        ensures
            fields_view(r@) == old(self)@,
            final(self)@ == fields_view(final(r)@),
    {
        &mut self.0
    }

    /// `{"status": "ok"}`.
    pub fn new_ok() -> (r: Self)
        ensures
            r@ == ok_fields(),
            r.wf(),
    {
        let mut v: Vec<(String, Json)> = Vec::new();
        v.push((String::from_str("status"), Json::Str(String::from_str("ok"))));
        let r = Response(v);
        assert(r@ =~= ok_fields()) by {
            reveal_strlit("status");
            reveal_strlit("ok");
        }
        r
    }

    /// `{"status": "err", "reason": reason}`.
    pub fn new_err(reason: String) -> (r: Self)
        ensures
            r@ == err_fields(reason@),
            r.wf(),
    {
        let mut v: Vec<(String, Json)> = Vec::new();
        v.push((String::from_str("status"), Json::Str(String::from_str("err"))));
        v.push((String::from_str("reason"), Json::Str(reason)));
        let r = Response(v);
        assert(r@ =~= err_fields(reason@));
        assert("status"@ != "reason"@) by {
            reveal_strlit("status");
            reveal_strlit("reason");
            assert("status"@[0] != "reason"@[0]);
        }
        r
    }

    /// `Ok` answers `{"status": "ok"}`, an error `{"status": "err", "reason": ..}`.
    pub fn from_outcome(outcome: Result<(), String>) -> (r: Self)
        ensures
            match outcome {
                Ok(_) => r@ == ok_fields(),
                Err(m) => r@ == err_fields(m@),
            },
            r.wf(),
    {
        match outcome {
            Ok(_) => Self::new_ok(),
            Err(m) => Self::new_err(m),
        }
    }

    /// The answer with `key` set to `value`.
    pub fn with_item(self, key: &str, value: Json) -> (r: Self)
        ensures
            r@ == object_insert(self@, key@, value@),
            self.wf() ==> r.wf(),
    {
        proof {
            if self.wf() {
                lemma_insert_keeps_keys_unique(self@, key@, value@);
            }
        }
        let mut v = self.0;
        insert_field(&mut v, key, value);
        Response(v)
    }

    /// The fields of this answer that differ from those of `older`: those that
    /// `older` lacks or holds with another value.
    pub fn diff_with(&self, older: &Self) -> (r: Self)
        ensures
            r@ == diff_fields(self@, older@),
            self.wf() ==> r.wf(),
    {
        proof {
            lemma_diff_keeps_keys_unique(self@, older@);
        }
        let mut out: Vec<(String, Json)> = Vec::new();
        let n = self.0.len();
        let ghost f = fields_view(self.0@);
        let ghost g = fields_view(older.0@);
        let mut i: usize = 0;
        while i < n
            invariant
                n == self.0@.len(),
                f == fields_view(self.0@),
                g == fields_view(older.0@),
                i <= n,
                fields_view(out@) == diff_fields(f.take(i as int), g),
            decreases n - i,
        {
            let key = &self.0[i].0;
            let val = &self.0[i].1;
            proof {
                assert(f.take(i as int + 1).drop_last() =~= f.take(i as int));
                assert(f.take(i as int + 1).last() == (key@, val@));
            }
            let same = match get(&older.0, key.as_str()) {
                Some(old_val) => json_eq(old_val, val),
                None => false,
            };
            if !same {
                let ghost before = out@;
                out.push((key.clone(), json_clone(val)));
                assert(fields_view(out@) =~= fields_view(before).push((key@, val@)));
            }
            i = i + 1;
        }
        assert(f.take(n as int) =~= f);
        Response(out)
    }
}


/// Sets the field `key` of an object to `value`: the first field with that key takes
/// it, or a new field at the end.
pub fn insert_field(v: &mut Vec<(String, Json)>, key: &str, value: Json)
    ensures
        fields_view(final(v)@) == object_insert(fields_view(old(v)@), key@, value@),
{
    let n = v.len();
    let ghost f = fields_view(v@);
    let mut i: usize = 0;
    while i < n
        invariant
            n == v@.len(),
            f == fields_view(v@),
            i <= n,
            forall|j: int| 0 <= j < i ==> f[j].0 != key@,
        ensures
            i <= n,
            forall|j: int| 0 <= j < i ==> f[j].0 != key@,
            i < n ==> f[i as int].0 == key@,
        decreases n - i,
    {
        if str_eq(v[i].0.as_str(), key) {
            break;
        }
        i = i + 1;
    }
    proof {
        lemma_insert_at(f, key@, value@, i as int);
    }
    if i < n {
        v.set(i, (String::from_str(key), value));
        assert(fields_view(v@) =~= f.update(i as int, (key@, value@)));
    } else {
        v.push((String::from_str(key), value));
        assert(fields_view(v@) =~= f.push((key@, value@)));
    }
}

/// Setting a key whose first field is at `i` (or, with `i` the length, which no field
/// has) updates that field or adds one at the end.
proof fn lemma_insert_at(f: Seq<(Seq<char>, JsonView)>, key: Seq<char>, value: JsonView, i: int)
    requires
        0 <= i <= f.len(),
        forall|j: int| 0 <= j < i ==> f[j].0 != key,
        i < f.len() ==> f[i].0 == key,
    ensures
        i < f.len() ==> object_insert(f, key, value) == f.update(i, (key, value)),
        i == f.len() ==> object_insert(f, key, value) == f.push((key, value)),
    decreases f.len(),
{
    if f.len() == 0 {
        assert(seq![(key, value)] =~= f.push((key, value)));
    } else if i == 0 {
    } else {
        let t = f.drop_first();
        assert forall|j: int| 0 <= j < i - 1 implies t[j].0 != key by {
            assert(t[j] == f[j + 1]);
        }
        lemma_insert_at(t, key, value, i - 1);
        if i < f.len() {
            assert(seq![f[0]] + t.update(i - 1, (key, value)) =~= f.update(i, (key, value)));
        } else {
            assert(seq![f[0]] + t.push((key, value)) =~= f.push((key, value)));
        }
    }
}

} // verus!
