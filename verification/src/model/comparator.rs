use std::cmp::Ordering;
use vstd::prelude::*;
use vstd::string::StringExecFns;

use crate::model::json::{fields_view, get, lemma_object_view, lookup, missing_key, missing_key_error, str_of, Json, JsonError, JsonView};
use crate::model::song::Metadata;
use crate::model::tag_key::{tag_index, tag_key_of_name, TagKey, TagKeyKind};
use crate::text::{chars_of, parse_i32, parse_i32_spec, push_char, str_eq};

verus! {

/// The direction of a sort.
#[derive(Debug, Clone, Copy, PartialEq, Eq, Structural)]
pub enum ComparisonOrder {
    Ascending,
    Descending,
}

impl Default for ComparisonOrder {
    fn default() -> (r: Self)
        ensures
            r == ComparisonOrder::Ascending,
    {
        ComparisonOrder::Ascending
    }
}

/// Sorts songs by the value of one tag, in one direction.
#[derive(Debug, Clone, Copy)]
pub struct Comparator {
    pub tag: TagKey,
    pub order: ComparisonOrder,
}

/// Lexicographic comparison of two texts, character by character: -1, 0 or 1.
pub open spec fn text_sign(a: Seq<char>, b: Seq<char>) -> int
    decreases a.len(),
{
    if a.len() == 0 {
        if b.len() == 0 {
            0
        } else {
            -1
        }
    } else if b.len() == 0 {
        1
    } else if a[0] < b[0] {
        -1
    } else if a[0] > b[0] {
        1
    } else {
        text_sign(a.drop_first(), b.drop_first())
    }
}

/// The ordering a sign stands for.
pub open spec fn sign_order(s: int) -> Ordering {
    if s < 0 {
        Ordering::Less
    } else if s > 0 {
        Ordering::Greater
    } else {
        Ordering::Equal
    }
}

/// Lexicographic order of two texts, character by character.
pub open spec fn text_order(a: Seq<char>, b: Seq<char>) -> Ordering {
    sign_order(text_sign(a, b))
}

/// The order of two integers.
pub open spec fn int_order(a: i32, b: i32) -> Ordering {
    if a < b {
        Ordering::Less
    } else if a > b {
        Ordering::Greater
    } else {
        Ordering::Equal
    }
}

/// The opposite order.
pub open spec fn reversed_order(o: Ordering) -> Ordering {
    match o {
        Ordering::Less => Ordering::Greater,
        Ordering::Equal => Ordering::Equal,
        Ordering::Greater => Ordering::Less,
    }
}

/// The text before the first `/` (all of it when there is none).
pub open spec fn first_field(s: Seq<char>) -> Seq<char>
    decreases s.len(),
{
    if s.len() == 0 {
        s
    } else if s[0] == '/' {
        Seq::empty()
    } else {
        seq![s[0]] + first_field(s.drop_first())
    }
}

/// How two values of a tag of kind `kind` compare: text lexicographically, integers
/// and "n out of m" values by their number; values that do not read as numbers are
/// equal to everything.
pub open spec fn value_order(kind: TagKeyKind, a: Seq<char>, b: Seq<char>) -> Ordering {
    match kind {
        TagKeyKind::String => text_order(a, b),
        TagKeyKind::Integer => match (parse_i32_spec(a), parse_i32_spec(b)) {
            (Some(x), Some(y)) => int_order(x, y),
            _ => Ordering::Equal,
        },
        TagKeyKind::OutOf => match (parse_i32_spec(first_field(a)), parse_i32_spec(first_field(b))) {
            (Some(x), Some(y)) => int_order(x, y),
            _ => Ordering::Equal,
        },
    }
}

/// How two songs with tag values `l` and `r` compare under `c`: a song without a
/// value comes before one with a value; descending order reverses the result.
pub open spec fn metadata_order(c: Comparator, l: Map<u8, Seq<char>>, r: Map<u8, Seq<char>>) -> Ordering {
    let k = tag_index(c.tag.key);
    let o = if l.contains_key(k) && r.contains_key(k) {
        value_order(c.tag.kind, l[k], r[k])
    } else if l.contains_key(k) {
        Ordering::Greater
    } else if r.contains_key(k) {
        Ordering::Less
    } else {
        Ordering::Equal
    };
    match c.order {
        ComparisonOrder::Ascending => o,
        ComparisonOrder::Descending => reversed_order(o),
    }
}

fn text_sign_of(a: &str, b: &str) -> (r: i8)
    ensures
        r == text_sign(a@, b@),
{
    let av = chars_of(a);
    let bv = chars_of(b);
    let mut i: usize = 0;
    assert(av@.skip(0) =~= av@);
    assert(bv@.skip(0) =~= bv@);
    loop
        invariant
            i <= av@.len(),
            i <= bv@.len(),
            av@ == a@,
            bv@ == b@,
            text_sign(av@.skip(i as int), bv@.skip(i as int)) == text_sign(a@, b@),
        decreases av@.len() - i,
    {
        if i == av.len() {
            if i == bv.len() {
                return 0;
            } else {
                return -1;
            }
        }
        if i == bv.len() {
            return 1;
        }
        let x = av[i];
        let y = bv[i];
        assert(av@.skip(i as int)[0] == x);
        assert(bv@.skip(i as int)[0] == y);
        if x < y {
            return -1;
        }
        if x > y {
            return 1;
        }
        assert(av@.skip(i as int).drop_first() =~= av@.skip(i + 1));
        assert(bv@.skip(i as int).drop_first() =~= bv@.skip(i + 1));
        i = i + 1;
    }
}

/// Compares two texts lexicographically.
pub fn compare_text(a: &str, b: &str) -> (r: Ordering)
    ensures
        r == text_order(a@, b@),
{
    let s = text_sign_of(a, b);
    if s < 0 {
        Ordering::Less
    } else if s > 0 {
        Ordering::Greater
    } else {
        Ordering::Equal
    }
}

/// The text before the first `/`.
pub fn first_field_of(s: &str) -> (r: String)
    ensures
        r@ == first_field(s@),
{
    let v = chars_of(s);
    let mut r = String::new();
    let n = v.len();
    let mut i: usize = 0;
    assert(v@.skip(0) =~= v@);
    while i < n
        invariant
            n == v@.len(),
            v@ == s@,
            i <= n,
            r@ + first_field(v@.skip(i as int)) == first_field(s@),
        decreases n - i,
    {
        assert(v@.skip(i as int)[0] == v@[i as int]);
        if v[i] == '/' {
            assert(r@ + Seq::<char>::empty() =~= r@);
            return r;
        }
        let ghost r0 = r@;
        push_char(&mut r, v[i]);
        assert(v@.skip(i as int).drop_first() =~= v@.skip(i + 1));
        assert(r@ + first_field(v@.skip(i + 1)) =~= r0 + (seq![v@[i as int]] + first_field(
            v@.skip(i + 1),
        )));
        i = i + 1;
    }
    assert(v@.skip(n as int).len() == 0);
    assert(r@ + Seq::<char>::empty() =~= r@);
    r
}

fn order_of_ints(a: i32, b: i32) -> (r: Ordering)
    ensures
        r == int_order(a, b),
{
    if a < b {
        Ordering::Less
    } else if a > b {
        Ordering::Greater
    } else {
        Ordering::Equal
    }
}

fn reverse(o: Ordering) -> (r: Ordering)
    ensures
        r == reversed_order(o),
{
    match o {
        Ordering::Less => Ordering::Greater,
        Ordering::Equal => Ordering::Equal,
        Ordering::Greater => Ordering::Less,
    }
}


/// How two songs compare under a list of comparators: by the first one that tells
/// them apart, equal when none does.
pub open spec fn chain_order(cs: Seq<Comparator>, l: Map<u8, Seq<char>>, r: Map<u8, Seq<char>>) -> Ordering
    decreases cs.len(),
{
    if cs.len() == 0 {
        Ordering::Equal
    } else {
        let o = metadata_order(cs[0], l, r);
        if o != Ordering::Equal {
            o
        } else {
            chain_order(cs.drop_first(), l, r)
        }
    }
}

/// Compares two songs by a list of comparators.
pub fn compare_songs(cs: &Vec<Comparator>, l: &Metadata, r: &Metadata) -> (o: Ordering)
    ensures
        o == chain_order(cs@, l.values(), r.values()),
{
    let mut i: usize = 0;
    let ghost mut gi: int = 0;
    assert(cs@.skip(0) =~= cs@);
    while i < cs.len()
        invariant
            gi == i,
            i <= cs@.len(),
            chain_order(cs@.skip(gi), l.values(), r.values()) == chain_order(cs@, l.values(), r.values()),
        decreases cs@.len() - i,
    {
        assert(cs@.skip(gi)[0] == cs@[gi]);
        assert(cs@.skip(gi).drop_first() =~= cs@.skip(gi + 1));
        let o = cs[i].cmp(l, r);
        match o {
            Ordering::Equal => {},
            _ => {
                return o;
            },
        }
        i = i + 1;
        proof {
            gi = gi + 1;
        }
    }
    Ordering::Equal
}

impl ComparisonOrder {
    /// The order named `s`: `ascending` or `descending`.
    pub fn from_name(s: &str) -> (r: Result<ComparisonOrder, JsonError>)
        ensures
            s@ == "ascending"@ ==> r == Ok::<ComparisonOrder, JsonError>(ComparisonOrder::Ascending),
            s@ == "descending"@ ==> r == Ok::<ComparisonOrder, JsonError>(ComparisonOrder::Descending),
            s@ != "ascending"@ && s@ != "descending"@ ==> (r matches Err(e) && e.0@
                == "comparison order must be `ascending` or `descending`"@),
    {
        proof {
            reveal_strlit("ascending");
            reveal_strlit("descending");
            assert("ascending"@.len() != "descending"@.len());
        }
        if str_eq(s, "ascending") {
            Ok(ComparisonOrder::Ascending)
        } else if str_eq(s, "descending") {
            Ok(ComparisonOrder::Descending)
        } else {
            Err(JsonError(String::from_str("comparison order must be `ascending` or `descending`")))
        }
    }
}

/// How a comparator is read from JSON: the tag and the order, or the text of the error.
pub open spec fn comparator_of_json(v: JsonView) -> Result<Comparator, Seq<char>> {
    match v {
        JsonView::Object(fields) => match lookup(fields, "tag"@) {
            None => Err(missing_key("tag"@)),
            Some(t) => match str_of(t) {
                None => Err("key `tag` must be a string"@),
                Some(name) => match tag_key_of_name(name) {
                    None => Err("invalid tag `"@ + name + "`"@),
                    Some(tag) => match lookup(fields, "order"@) {
                        None => Ok(Comparator { tag, order: ComparisonOrder::Ascending }),
                        Some(o) => match str_of(o) {
                            None => Err("key `order` must be a string"@),
                            Some(s) => if s == "ascending"@ {
                                Ok(Comparator { tag, order: ComparisonOrder::Ascending })
                            } else if s == "descending"@ {
                                Ok(Comparator { tag, order: ComparisonOrder::Descending })
                            } else {
                                Err("comparison order must be `ascending` or `descending`"@)
                            },
                        },
                    },
                },
            },
        },
        _ => Err("a comparator must be a JSON object"@),
    }
}

impl Comparator {
    fn cmp_values(&self, lhs: &str, rhs: &str) -> (r: Ordering)
        ensures
            r == value_order(self.tag.kind, lhs@, rhs@),
    {
        match self.tag.kind {
            TagKeyKind::String => compare_text(lhs, rhs),
            TagKeyKind::Integer => match (parse_i32(lhs), parse_i32(rhs)) {
                (Some(l), Some(r)) => order_of_ints(l, r),
                _ => Ordering::Equal,
            },
            TagKeyKind::OutOf => {
                let l = first_field_of(lhs);
                let r = first_field_of(rhs);
                match (parse_i32(l.as_str()), parse_i32(r.as_str())) {
                    (Some(x), Some(y)) => order_of_ints(x, y),
                    _ => Ordering::Equal,
                }
            },
        }
    }

    /// How two songs compare by this comparator's tag and order.
    pub fn cmp(&self, lhs: &Metadata, rhs: &Metadata) -> (r: Ordering)
        ensures
            r == metadata_order(*self, lhs.values(), rhs.values()),
    {
        let l = lhs.get(&self.tag);
        let r = rhs.get(&self.tag);
        let ordering = match (l, r) {
            (Some(a), Some(b)) => self.cmp_values(a, b),
            (Some(_), None) => Ordering::Greater,
            (None, Some(_)) => Ordering::Less,
            (None, None) => Ordering::Equal,
        };
        match self.order {
            ComparisonOrder::Ascending => ordering,
            ComparisonOrder::Descending => reverse(ordering),
        }
    }

    /// Reads a comparator from its JSON object: `tag`, and `order` (ascending when
    /// missing).
    pub fn from_json(v: &Json) -> (r: Result<Comparator, JsonError>)
        ensures
            match comparator_of_json(v@) {
                Ok(c) => r matches Ok(d) && d.tag == c.tag && d.order == c.order,
                Err(m) => r matches Err(e) && e.0@ == m,
            },
    {
        let fields = match v {
            Json::Object(fields) => fields,
            _ => return Err(JsonError(String::from_str("a comparator must be a JSON object"))),
        };
        proof {
            lemma_object_view(v, *fields);
        }
        let t = match get(fields, "tag") {
            Some(t) => t,
            None => return Err(missing_key_error("tag")),
        };
        let name = match t {
            Json::Str(s) => s,
            _ => return Err(JsonError(String::from_str("key `tag` must be a string"))),
        };
        let tag = match TagKey::try_from_name(name.as_str()) {
            Ok(tag) => tag,
            Err(e) => return Err(JsonError(e.to_message())),
        };
        let order = match get(fields, "order") {
            None => ComparisonOrder::Ascending,
            Some(Json::Str(s)) => ComparisonOrder::from_name(s.as_str())?,
            Some(_) => return Err(JsonError(String::from_str("key `order` must be a string"))),
        };
        Ok(Comparator { tag, order })
    }
}

} // verus!
