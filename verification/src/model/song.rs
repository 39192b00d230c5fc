use std::collections::HashMap;
use vstd::prelude::*;

use crate::model::tag_key::{tag_index, TagKey};

verus! {

broadcast use vstd::std_specs::hash::group_hash_axioms;

/// The tag values of a song, by tag.
#[derive(Debug)]
pub struct Metadata {
    data: HashMap<u8, String>,
}

impl Clone for Metadata {
    fn clone(&self) -> (r: Self)
        ensures
            r.values() == self.values(),
    {
        Metadata { data: self.data.clone() }
    }
}

/// The plain values of a map of strings.
pub open spec fn string_values(m: Map<u8, String>) -> Map<u8, Seq<char>> {
    m.map_values(|s: String| s@)
}

impl Metadata {
    /// The values, keyed by the tags' positions in the list of supported tags.
    pub closed spec fn values(&self) -> Map<u8, Seq<char>> {
        string_values(self.data@)
    }

    /// Only supported tags have values.
    pub open spec fn wf(&self) -> bool {
        forall|k: u8| #[trigger] self.values().contains_key(k) ==> k < 30
    }

    /// No values at all.
    pub fn new() -> (r: Self)
        ensures
            r.wf(),
            r.values() == Map::<u8, Seq<char>>::empty(),
    {
        let r = Metadata { data: HashMap::new() };
        assert(r.values() =~= Map::<u8, Seq<char>>::empty());
        r
    }

    /// The value of `tag`, if the song has one.
    pub fn get(&self, tag: &TagKey) -> (r: Option<&str>)
        ensures
            match r {
                Some(s) => self.values().contains_key(tag_index(tag.key)) && self.values()[tag_index(
                    tag.key,
                )] == s@,
                None => !self.values().contains_key(tag_index(tag.key)),
            },
    {
        let k = tag.key.index();
        match self.data.get(&k) {
            Some(s) => Some(s.as_str()),
            None => None,
        }
    }

    /// Sets the value of `tag` unless it already has one: the first value given
    /// for a tag is the one kept.
    pub fn insert_if_absent(&mut self, tag: &TagKey, value: String)
        requires
            old(self).wf(),
        ensures
            final(self).wf(),
            final(self).values() == if old(self).values().contains_key(tag_index(tag.key)) {
                old(self).values()
            } else {
                old(self).values().insert(tag_index(tag.key), value@)
            },
    {
        let k = tag.key.index();
        if !self.data.contains_key(&k) {
            self.data.insert(k, value);
            assert(self.values() =~= old(self).values().insert(k, value@));
        }
    }

    /// The metadata built from tag/value pairs read from a file, the first value of
    /// each tag being the one kept.
    pub fn from_pairs(pairs: Vec<(TagKey, String)>) -> (r: Self)
        ensures
            r.wf(),
            r.values() == first_values(pairs_view(pairs@)),
    {
        let mut r = Metadata::new();
        let n = pairs.len();
        let mut pairs = pairs;
        let ghost all = pairs_view(pairs@);
        let mut rest: Vec<(TagKey, String)> = Vec::new();
        let mut i: usize = 0;
        while i < n
            invariant
                n == all.len(),
                pairs@.len() == n,
                i <= n,
                all == pairs_view(pairs@),
                r.wf(),
                r.values() == first_values(all.take(i as int)),
            decreases n - i,
        {
            let (tag, value) = (pairs[i].0, pairs[i].1.clone());
            proof {
                lemma_first_values_push(all.take(i as int), all[i as int]);
                assert(all.take(i + 1) =~= all.take(i as int).push(all[i as int]));
            }
            r.insert_if_absent(&tag, value);
            i = i + 1;
        }
        assert(all.take(n as int) =~= all);
        r
    }

    /// This metadata completed by `other`, whose values win where both have one.
    pub fn merge(self, other: Metadata) -> (r: Self)
        requires
            self.wf(),
            other.wf(),
        ensures
            r.wf(),
            r.values() == self.values().union_prefer_right(other.values()),
    {
        let mut data = self.data;
        let mut k: u8 = 0;
        while k < 30
            invariant
                k <= 30,
                other.wf(),
                self.wf(),
                string_values(data@) == self.values().union_prefer_right(
                    other.values().restrict(Set::new(|x: u8| x < k)),
                ),
            decreases 30 - k,
        {
            let ghost before = data@;
            let ghost lo = Set::new(|x: u8| x < k);
            let ghost hi = Set::new(|x: u8| x < k + 1);
            match other.data.get(&k) {
                Some(v) => {
                    data.insert(k, v.clone());
                    assert(string_values(data@) =~= string_values(before).insert(k, v@));
                    assert(other.values()[k] == v@);
                },
                None => {
                    assert(!other.values().contains_key(k));
                },
            }
            assert(string_values(data@) =~= self.values().union_prefer_right(
                other.values().restrict(hi),
            )) by {
                assert(other.values().restrict(hi) =~= if other.values().contains_key(k) {
                    other.values().restrict(lo).insert(k, other.values()[k])
                } else {
                    other.values().restrict(lo)
                });
            }
            k = k + 1;
        }
        assert(other.values().restrict(Set::new(|x: u8| x < 30)) =~= other.values());
        Metadata { data }
    }
}

/// The plain values of tag/value pairs.
pub open spec fn pairs_view(v: Seq<(TagKey, String)>) -> Seq<(TagKey, Seq<char>)> {
    v.map_values(|p: (TagKey, String)| (p.0, p.1@))
}

/// The first value given for each tag.
pub open spec fn first_values(pairs: Seq<(TagKey, Seq<char>)>) -> Map<u8, Seq<char>>
    decreases pairs.len(),
{
    if pairs.len() == 0 {
        Map::empty()
    } else {
        let m = first_values(pairs.drop_last());
        let k = tag_index(pairs.last().0.key);
        if m.contains_key(k) {
            m
        } else {
            m.insert(k, pairs.last().1)
        }
    }
}

proof fn lemma_first_values_push(pairs: Seq<(TagKey, Seq<char>)>, p: (TagKey, Seq<char>))
    ensures
        first_values(pairs.push(p)) == ({
            let m = first_values(pairs);
            let k = tag_index(p.0.key);
            if m.contains_key(k) {
                m
            } else {
                m.insert(k, p.1)
            }
        }),
{
    assert(pairs.push(p).drop_last() =~= pairs);
}

/// A song of the database: its absolute path and its tags.
#[derive(Debug)]
pub struct Song {
    pub path: String,
    pub metadata: Metadata,
}

/// What a song holds, as plain values.
pub struct SongView {
    pub path: Seq<char>,
    pub values: Map<u8, Seq<char>>,
}

impl View for Song {
    type V = SongView;

    open spec fn view(&self) -> SongView {
        SongView { path: self.path@, values: self.metadata.values() }
    }
}

impl Clone for Song {
    fn clone(&self) -> (r: Self)
        ensures
            r@ == self@,
    {
        Song { path: self.path.clone(), metadata: self.metadata.clone() }
    }
}

/// The plain values of songs.
pub open spec fn song_views(s: Seq<Song>) -> Seq<SongView> {
    Seq::new(s.len(), |i: int| s[i]@)
}

/// What the audio side reports to the player.
#[derive(Debug)]
pub enum SongEvent {
    /// The song has been played to its end.
    Over,
}

} // verus!
