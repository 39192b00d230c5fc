use std::cmp::Ordering;
use vstd::prelude::*;
use vstd::string::StringExecFns;

use crate::text::{chars_of, push_char, string_of};

verus! {

/// A path is absolute when it starts at the root, `/`.
pub open spec fn is_absolute(p: Seq<char>) -> bool {
    p.len() > 0 && p[0] == '/'
}

/// `base` joined with `p` as `PathBuf::join` does with `/` as the separator: an
/// absolute `p` replaces `base`; otherwise a separator is put between them unless
/// `base` is empty or already ends with one.
pub open spec fn join(base: Seq<char>, p: Seq<char>) -> Seq<char> {
    if is_absolute(p) {
        p
    } else if base.len() > 0 && base.last() != '/' {
        base + seq!['/'] + p
    } else {
        base + p
    }
}

/// `base` joined with `p`.
pub fn join_path(base: &str, p: &str) -> (r: String)
    ensures
        r@ == join(base@, p@),
{
    let pv = crate::text::chars_of(p);
    if pv.len() > 0 && pv[0] == '/' {
        return String::from_str(p);
    }
    let bv = crate::text::chars_of(base);
    let mut r = String::from_str(base);
    if bv.len() > 0 && bv[bv.len() - 1] != '/' {
        push_char(&mut r, '/');
    }
    r.append(p);
    r
}


/// Where a character falls in the order of paths: the separator before every other
/// character, the others by their code.
pub open spec fn char_rank(c: char) -> int {
    if c == '/' {
        -1
    } else {
        c as int
    }
}

/// `a` comes before `b` in the order of paths: the characters are compared one by
/// one, the separator below all others, and a proper prefix comes first. On paths
/// without `.` or empty components this is the component-wise order of `Path`.
pub open spec fn path_lt(a: Seq<char>, b: Seq<char>) -> bool
    decreases a.len(),
{
    if b.len() == 0 {
        false
    } else if a.len() == 0 {
        true
    } else if char_rank(a[0]) != char_rank(b[0]) {
        char_rank(a[0]) < char_rank(b[0])
    } else {
        path_lt(a.drop_first(), b.drop_first())
    }
}

/// `a` comes before `b` or is `b`.
pub open spec fn path_le(a: Seq<char>, b: Seq<char>) -> bool {
    a == b || path_lt(a, b)
}

proof fn lemma_rank_injective(c: char, d: char)
    ensures
        char_rank(c) == char_rank(d) ==> c == d,
{
}

/// No path comes before itself.
pub proof fn lemma_path_lt_irreflexive(a: Seq<char>)
    ensures
        !path_lt(a, a),
    decreases a.len(),
{
    if a.len() > 0 {
        lemma_path_lt_irreflexive(a.drop_first());
    }
}

/// Of two paths at most one comes before the other.
pub proof fn lemma_path_lt_asymmetric(a: Seq<char>, b: Seq<char>)
    ensures
        path_lt(a, b) ==> !path_lt(b, a),
    decreases a.len(),
{
    if a.len() > 0 && b.len() > 0 && char_rank(a[0]) == char_rank(b[0]) {
        lemma_path_lt_asymmetric(a.drop_first(), b.drop_first());
    }
}

/// The order of paths is transitive.
pub proof fn lemma_path_lt_transitive(a: Seq<char>, b: Seq<char>, c: Seq<char>)
    requires
        path_lt(a, b),
        path_lt(b, c),
    ensures
        path_lt(a, c),
    decreases a.len(),
{
    if a.len() > 0 && char_rank(a[0]) == char_rank(b[0]) && char_rank(b[0]) == char_rank(c[0]) {
        lemma_path_lt_transitive(a.drop_first(), b.drop_first(), c.drop_first());
    }
}

/// Of two different paths one comes before the other.
pub proof fn lemma_path_lt_total(a: Seq<char>, b: Seq<char>)
    ensures
        a != b ==> path_lt(a, b) || path_lt(b, a),
    decreases a.len(),
{
    if a.len() > 0 && b.len() > 0 && char_rank(a[0]) == char_rank(b[0]) {
        lemma_rank_injective(a[0], b[0]);
        lemma_path_lt_total(a.drop_first(), b.drop_first());
        if a.drop_first() == b.drop_first() {
            assert(a =~= b) by {
                assert forall|i: int| 0 <= i < a.len() implies a[i] == b[i] by {
                    if i > 0 {
                        assert(a[i] == a.drop_first()[i - 1]);
                    }
                }
            }
        }
    } else if a.len() == 0 && b.len() == 0 {
        assert(a =~= b);
    }
}

fn rank(c: char) -> (r: i64)
    ensures
        r == char_rank(c),
{
    if c == '/' {
        -1
    } else {
        c as u32 as i64
    }
}

/// Whether `a` comes before `b` in the order of paths.
pub fn path_less(a: &str, b: &str) -> (r: bool)
    ensures
        r == path_lt(a@, b@),
{
    let av = chars_of(a);
    let bv = chars_of(b);
    let mut i: usize = 0;
    assert(a@.skip(0) =~= a@);
    assert(b@.skip(0) =~= b@);
    while i < av.len() && i < bv.len()
        invariant
            i <= av@.len(),
            i <= bv@.len(),
            av@ == a@,
            bv@ == b@,
            path_lt(a@, b@) == path_lt(a@.skip(i as int), b@.skip(i as int)),
        decreases av@.len() - i,
    {
        let ra = rank(av[i]);
        let rb = rank(bv[i]);
        assert(a@.skip(i as int)[0] == av@[i as int]);
        assert(b@.skip(i as int)[0] == bv@[i as int]);
        if ra != rb {
            return ra < rb;
        }
        assert(a@.skip(i as int).drop_first() =~= a@.skip(i as int + 1));
        assert(b@.skip(i as int).drop_first() =~= b@.skip(i as int + 1));
        i = i + 1;
    }
    i < bv.len()
}


/// How two paths compare in the order of paths.
pub fn path_ordering(a: &str, b: &str) -> (r: Ordering)
    ensures
        r == Ordering::Less <==> path_lt(a@, b@),
        r == Ordering::Equal <==> a@ == b@,
        r == Ordering::Greater <==> path_lt(b@, a@),
{
    proof {
        lemma_path_lt_total(a@, b@);
        lemma_path_lt_asymmetric(a@, b@);
        lemma_path_lt_irreflexive(a@);
    }
    if path_less(a, b) {
        Ordering::Less
    } else if path_less(b, a) {
        Ordering::Greater
    } else {
        Ordering::Equal
    }
}

/// `p` without the separators at its end, but for the root itself.
pub open spec fn trim_end(p: Seq<char>) -> Seq<char>
    decreases p.len(),
{
    if p.len() > 1 && p.last() == '/' {
        trim_end(p.drop_last())
    } else {
        p
    }
}

/// `p` without the separators at its end, but for the root itself.
pub fn trim_end_slashes(p: &str) -> (r: String)
    ensures
        r@ == trim_end(p@),
{
    let v = chars_of(p);
    let mut n = v.len();
    assert(v@.take(n as int) =~= v@);
    while n > 1 && v[n - 1] == '/'
        invariant
            n <= v@.len(),
            v@ == p@,
            trim_end(p@) == trim_end(v@.take(n as int)),
        decreases n,
    {
        assert(v@.take(n as int).drop_last() =~= v@.take(n as int - 1));
        n = n - 1;
    }
    assert(trim_end(v@.take(n as int)) == v@.take(n as int));
    string_of(&v, n)
}

/// What `Path::strip_prefix` gives for a path `p` below the directory `base`: the
/// rest of `p` after `base` and the separator that follows it; nothing when `p` is
/// not below `base` nor `base` itself.
pub open spec fn strip_dir(base: Seq<char>, p: Seq<char>) -> Option<Seq<char>> {
    let b = trim_end(base);
    if b.len() == 0 {
        Some(p)
    } else if p == b {
        Some(Seq::empty())
    } else if b == seq!['/'] && p.len() > 0 && p[0] == '/' {
        Some(p.drop_first())
    } else if p.len() > b.len() && p.take(b.len() as int) == b && p[b.len() as int] == '/' {
        Some(p.skip(b.len() as int + 1))
    } else {
        None
    }
}

/// The rest of `p` below the directory `base`, if `p` lies there.
pub fn strip_dir_prefix(base: &str, p: &str) -> (r: Option<String>)
    ensures
        r matches Some(s) ==> strip_dir(base@, p@) == Some(s@),
        r is None ==> strip_dir(base@, p@) is None,
{
    let b = trim_end_slashes(base);
    let bv = chars_of(b.as_str());
    let pv = chars_of(p);
    if bv.len() == 0 {
        return Some(String::from_str(p));
    }
    if pv.len() < bv.len() {
        proof {
            if p@ == b@ {
                assert(false);
            }
        }
        return None;
    }
    let mut i: usize = 0;
    while i < bv.len()
        invariant
            i <= bv@.len(),
            bv@.len() <= pv@.len(),
            bv@ == b@,
            b@ == trim_end(base@),
            pv@ == p@,
            pv@.take(i as int) == bv@.take(i as int),
        decreases bv@.len() - i,
    {
        if pv[i] != bv[i] {
            proof {
                assert(pv@.take(bv@.len() as int)[i as int] != bv@[i as int]);
                if p@ == b@ {
                    assert(pv@[i as int] == bv@[i as int]);
                }
                if bv@ == seq!['/'] {
                    assert(bv@[0] == '/');
                }
                assert(pv@.take(bv@.len() as int) != bv@);
                assert(p@ != b@);
                assert(!(b@ == seq!['/'] && p@.len() > 0 && p@[0] == '/'));
                let tb = trim_end(base@);
                assert(tb == b@);
                assert(p@.take(tb.len() as int) != tb);
                assert(strip_dir(base@, p@) is None);
            }
            return None;
        }
        assert(pv@.take(i as int + 1) =~= pv@.take(i as int).push(pv@[i as int]));
        assert(bv@.take(i as int + 1) =~= bv@.take(i as int).push(bv@[i as int]));
        i = i + 1;
    }
    assert(pv@.take(bv@.len() as int) == bv@) by {
        assert(bv@.take(bv@.len() as int) =~= bv@);
    }
    if pv.len() == bv.len() {
        assert(pv@ =~= bv@) by {
            assert(pv@.take(pv@.len() as int) =~= pv@);
        }
        return Some(String::new());
    }
    if bv.len() == 1 && bv[0] == '/' {
        assert(bv@ =~= seq!['/']);
        let mut r = String::new();
        let mut j: usize = 1;
        while j < pv.len()
            invariant
                1 <= j <= pv@.len(),
                r@ == pv@.subrange(1, j as int),
            decreases pv@.len() - j,
        {
            push_char(&mut r, pv[j]);
            assert(pv@.subrange(1, j as int + 1) =~= pv@.subrange(1, j as int).push(pv@[j as int]));
            j = j + 1;
        }
        assert(r@ =~= p@.drop_first());
        return Some(r);
    }
    if pv[bv.len()] != '/' {
        proof {
            if bv@ == seq!['/'] {
                assert(bv@.len() == 1 && bv@[0] == '/');
            }
        }
        return None;
    }
    proof {
        if bv@ == seq!['/'] {
            assert(bv@.len() == 1 && bv@[0] == '/');
        }
    }
    let mut r = String::new();
    let mut j: usize = bv.len() + 1;
    while j < pv.len()
        invariant
            bv@.len() as int + 1 <= j <= pv@.len(),
            r@ == pv@.subrange(bv@.len() as int + 1, j as int),
        decreases pv@.len() - j,
    {
        push_char(&mut r, pv[j]);
        assert(pv@.subrange(bv@.len() as int + 1, j as int + 1) =~= pv@.subrange(bv@.len() as int + 1, j as int).push(pv@[j as int]));
        j = j + 1;
    }
    assert(r@ =~= p@.skip(bv@.len() as int + 1));
    Some(r)
}

/// The directory that holds the file at the canonical path `p` (as `Path::parent`
/// gives it): `p` up to its last separator, or the root.
pub open spec fn parent_dir(p: Seq<char>) -> Option<Seq<char>> {
    if exists|k: int| 0 <= k < p.len() && p[k] == '/' {
        let k = choose|k: int|
            0 <= k < p.len() && p[k] == '/' && forall|j: int| k < j < p.len() ==> p[j] != '/';
        if k == 0 {
            Some(seq!['/'])
        } else {
            Some(p.take(k))
        }
    } else {
        None
    }
}

/// Whether the file at the canonical path `p` lies directly in the directory `dir`.
pub fn is_in_dir(p: &str, dir: &str) -> (r: bool)
    ensures
        r == (parent_dir(p@) == Some(trim_end(dir@))),
{
    let pv = chars_of(p);
    let d = trim_end_slashes(dir);
    let mut k = pv.len();
    while k > 0 && pv[k - 1] != '/'
        invariant
            k <= pv@.len(),
            pv@ == p@,
            forall|j: int| k <= j < pv@.len() ==> pv@[j] != '/',
        decreases k,
    {
        k = k - 1;
    }
    if k == 0 {
        assert(!exists|k: int| 0 <= k < p@.len() && p@[k] == '/');
        return false;
    }
    let last = k - 1;
    assert(0 <= last < p@.len() && p@[last as int] == '/' && forall|j: int| last < j < p@.len() ==> p@[j] != '/');
    proof {
        let c = choose|c: int|
            0 <= c < p@.len() && p@[c] == '/' && forall|j: int| c < j < p@.len() ==> p@[j] != '/';
        assert(c == last as int) by {
            if c < last {
                assert(p@[last as int] != '/');
            } else if c > last {
                assert(p@[c] != '/');
            }
        }
    }
    let parent = if last == 0 {
        String::from_str("/")
    } else {
        string_of(&pv, last)
    };
    proof {
        reveal_strlit("/");
        if last == 0 {
            assert(parent@ =~= seq!['/']);
        }
    }
    crate::text::str_eq(parent.as_str(), d.as_str())
}

/// The extension of the file named at the end of `p`, as `Path::extension` gives it:
/// what follows the last `.` of the file name, unless the name has no `.` but a first
/// one.
pub open spec fn extension_of(p: Seq<char>) -> Option<Seq<char>> {
    let name = file_name_of(p);
    if exists|k: int| 0 < k < name.len() && name[k] == '.' {
        let k = choose|k: int|
            0 < k < name.len() && name[k] == '.' && forall|j: int| k < j < name.len() ==> name[j] != '.';
        Some(name.skip(k + 1))
    } else {
        None
    }
}

/// The last component of `p`: what follows its last separator.
pub open spec fn file_name_of(p: Seq<char>) -> Seq<char> {
    let t = trim_end(p);
    if exists|k: int| 0 <= k < t.len() && t[k] == '/' {
        let k = choose|k: int|
            0 <= k < t.len() && t[k] == '/' && forall|j: int| k < j < t.len() ==> t[j] != '/';
        t.skip(k + 1)
    } else {
        t
    }
}


/// The characters of `v` from `from` on.
fn tail_string(v: &Vec<char>, from: usize) -> (r: String)
    requires
        from <= v@.len(),
    ensures
        r@ == v@.skip(from as int),
{
    let mut r = String::new();
    let mut j: usize = from;
    while j < v.len()
        invariant
            from <= j <= v@.len(),
            r@ == v@.subrange(from as int, j as int),
        decreases v@.len() - j,
    {
        push_char(&mut r, v[j]);
        assert(v@.subrange(from as int, j as int + 1) =~= v@.subrange(from as int, j as int).push(v@[j as int]));
        j = j + 1;
    }
    assert(r@ =~= v@.skip(from as int));
    r
}

/// The position after the last `c` in `v`, or 0 when there is none.
fn after_last(v: &Vec<char>, c: char) -> (k: usize)
    ensures
        k <= v@.len(),
        k > 0 ==> v@[k - 1] == c,
        forall|j: int| k <= j < v@.len() ==> v@[j] != c,
{
    let mut k = v.len();
    while k > 0 && v[k - 1] != c
        invariant
            k <= v@.len(),
            forall|j: int| k <= j < v@.len() ==> v@[j] != c,
        decreases k,
    {
        k = k - 1;
    }
    k
}

/// The extension of the file at the end of `p`.
pub fn file_extension(p: &str) -> (r: Option<String>)
    ensures
        r matches Some(e) ==> extension_of(p@) == Some(e@),
        r is None ==> extension_of(p@) is None,
{
    let t = trim_end_slashes(p);
    let tv = chars_of(t.as_str());
    let k = after_last(&tv, '/');
    let name = tail_string(&tv, k);
    proof {
        let tt = trim_end(p@);
        assert(tv@ == tt);
        if k > 0 {
            let w = (k - 1) as int;
            assert(0 <= w < tt.len() && tt[w] == '/' && forall|j: int| w < j < tt.len() ==> tt[j] != '/');
            let c = choose|c: int| 0 <= c < tt.len() && tt[c] == '/' && forall|j: int| c < j < tt.len() ==> tt[j] != '/';
            assert(c == w) by {
                if c < w {
                    assert(tt[w] != '/');
                } else if c > w {
                    assert(tt[c] != '/');
                }
            }
            assert(file_name_of(p@) == name@);
        } else {
            assert(!exists|c: int| 0 <= c < tt.len() && tt[c] == '/');
            assert(tt.skip(0) =~= tt);
            assert(file_name_of(p@) == name@);
        }
    }
    let nv = chars_of(name.as_str());
    let d = after_last(&nv, '.');
    if d <= 1 {
        proof {
            let nm = name@;
            if exists|c: int| 0 < c < nm.len() && nm[c] == '.' {
                let c = choose|c: int| 0 < c < nm.len() && nm[c] == '.';
                assert(nv@[c] == '.');
            }
        }
        return None;
    }
    let ext = tail_string(&nv, d);
    proof {
        let nm = name@;
        let w = (d - 1) as int;
        assert(0 < w < nm.len() && nm[w] == '.' && forall|j: int| w < j < nm.len() ==> nm[j] != '.');
        let c = choose|c: int| 0 < c < nm.len() && nm[c] == '.' && forall|j: int| c < j < nm.len() ==> nm[j] != '.';
        assert(c == w) by {
            if c < w {
                assert(nm[w] != '.');
            } else if c > w {
                assert(nm[c] != '.');
            }
        }
    }
    Some(ext)
}

/// Whether the file at `p` has one of the extensions `exts`.
pub fn has_allowed_extension(p: &str, exts: &Vec<String>) -> (r: bool)
    ensures
        r == (extension_of(p@) matches Some(e) && crate::text::views_of(exts@).contains(e)),
{
    match file_extension(p) {
        Some(e) => {
            let mut i: usize = 0;
            while i < exts.len()
                invariant
                    i <= exts@.len(),
                    extension_of(p@) == Some(e@),
                    forall|j: int| 0 <= j < i ==> exts@[j]@ != e@,
                decreases exts@.len() - i,
            {
                if crate::text::str_eq(exts[i].as_str(), e.as_str()) {
                    assert(crate::text::views_of(exts@)[i as int] == e@);
                    return true;
                }
                i = i + 1;
            }
            proof {
                if crate::text::views_of(exts@).contains(e@) {
                    let j = choose|j: int| 0 <= j < exts@.len() && crate::text::views_of(exts@)[j] == e@;
                    assert(exts@[j]@ == e@);
                }
            }
            false
        },
        None => false,
    }
}

} // verus!
