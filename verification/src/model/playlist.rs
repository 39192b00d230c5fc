use std::rc::Rc;
use vstd::prelude::*;

use crate::text::{
    lemma_lines_no_newline, lemma_lines_of_terminated, lines, lines_of, no_newline, no_trailing_cr, push_char,
    terminated, views_of,
};

verus! {

/// A line of an M3U playlist that starts with `#` is a comment.
pub open spec fn is_comment(l: Seq<char>) -> bool {
    l.len() > 0 && l[0] == '#'
}

/// The songs that a playlist file lists: its lines, but for comments.
pub open spec fn playlist_songs(content: Seq<char>) -> Seq<Seq<char>> {
    lines_of(content).filter(|l: Seq<char>| !is_comment(l))
}

/// The songs that the playlist file `content` lists.
pub fn songs_of_playlist(content: &str) -> (r: Vec<String>)
    ensures
        views_of(r@) == playlist_songs(content@),
{
    let all = lines(content);
    let ghost ls = views_of(all@);
    let mut r: Vec<String> = Vec::new();
    let mut i: usize = 0;
    assert(ls.take(0) =~= Seq::<Seq<char>>::empty());
    while i < all.len()
        invariant
            i <= all@.len(),
            ls == views_of(all@),
            views_of(r@) == ls.take(i as int).filter(|l: Seq<char>| !is_comment(l)),
        decreases all@.len() - i,
    {
        let line = &all[i];
        proof {
            assert(ls.take(i + 1) =~= ls.take(i as int).push(line@));
            ls.take(i as int).lemma_filter_push(line@, |l: Seq<char>| !is_comment(l));
        }
        let cv = crate::text::chars_of(line.as_str());
        let comment = cv.len() > 0 && cv[0] == '#';
        if !comment {
            let ghost before = r@;
            r.push(line.clone());
            assert(views_of(r@) =~= views_of(before).push(line@));
        }
        i = i + 1;
    }
    assert(ls.take(all@.len() as int) =~= ls);
    r
}


/// Lines joined with `\n` between them.
pub open spec fn joined_lines(ls: Seq<Seq<char>>) -> Seq<char>
    decreases ls.len(),
{
    if ls.len() == 0 {
        Seq::empty()
    } else if ls.len() == 1 {
        ls[0]
    } else {
        joined_lines(ls.drop_last()) + seq!['\n'] + ls.last()
    }
}

/// `ls` without the line at `pos`, when there is one.
pub open spec fn drop_at(ls: Seq<Seq<char>>, pos: int) -> Seq<Seq<char>> {
    if 0 <= pos < ls.len() {
        ls.remove(pos)
    } else {
        ls
    }
}

/// A playlist file once the line at `pos` (counted from 0) is removed: the other
/// lines joined by `\n`, and one `\n` at the end.
pub open spec fn without_line(content: Seq<char>, pos: int) -> Seq<char> {
    joined_lines(drop_at(lines_of(content), pos)) + seq!['\n']
}

/// The file `content` without its line at `pos`.
pub fn remove_line(content: &str, pos: usize) -> (r: String)
    ensures
        r@ == without_line(content@, pos as int),
{
    let all = lines(content);
    let ghost ls = views_of(all@);
    let mut r = String::new();
    let mut any = false;
    let mut i: usize = 0;
    assert(drop_at(ls.take(0), pos as int) =~= Seq::<Seq<char>>::empty());
    while i < all.len()
        invariant
            i <= all@.len(),
            ls == views_of(all@),
            r@ == joined_lines(drop_at(ls.take(i as int), pos as int)),
            any == (drop_at(ls.take(i as int), pos as int).len() > 0),
        decreases all@.len() - i,
    {
        let ghost before = drop_at(ls.take(i as int), pos as int);
        if i != pos {
            let ghost r0 = r@;
            if any {
                push_char(&mut r, '\n');
            }
            r.append(all[i].as_str());
            any = true;
            proof {
                let x = ls[i as int];
                assert(drop_at(ls.take(i + 1), pos as int) =~= before.push(x)) by {
                    if pos < i {
                        assert(ls.take(i + 1).remove(pos as int) =~= ls.take(i as int).remove(pos as int).push(x));
                    } else {
                        assert(ls.take(i + 1) =~= ls.take(i as int).push(x));
                    }
                }
                assert(before.push(x).drop_last() =~= before);
                if before.len() == 0 {
                    assert(r@ =~= x);
                } else {
                    assert(r@ =~= r0 + seq!['\n'] + x);
                }
            }
        } else {
            assert(drop_at(ls.take(i + 1), pos as int) =~= before) by {
                assert(ls.take(i + 1).remove(i as int) =~= ls.take(i as int));
            }
        }
        i = i + 1;
    }
    assert(ls.take(all@.len() as int) =~= ls);
    push_char(&mut r, '\n');
    r
}


/// Lines joined by `\n` and followed by one are the lines each followed by `\n`.
proof fn lemma_joined_terminated(ls: Seq<Seq<char>>)
    requires
        ls.len() > 0,
    ensures
        joined_lines(ls) + seq!['\n'] == terminated(ls),
    decreases ls.len(),
{
    if ls.len() == 1 {
        assert(ls.drop_last() =~= Seq::<Seq<char>>::empty());
        assert(terminated(ls.drop_last()) =~= Seq::<char>::empty());
        assert(Seq::<char>::empty() + ls.last() + seq!['\n'] =~= ls[0] + seq!['\n']);
    } else {
        lemma_joined_terminated(ls.drop_last());
        assert(joined_lines(ls) + seq!['\n'] =~= (joined_lines(ls.drop_last()) + seq!['\n']) + ls.last() + seq!['\n']);
    }
}

/// Removing the line at `pos` from a playlist file leaves its other lines, in order,
/// as long as one line at least stays and no line ends with a carriage return.
pub proof fn lemma_remove_line_keeps_others(content: Seq<char>, pos: int)
    requires
        drop_at(lines_of(content), pos).len() > 0,
        forall|i: int| 0 <= i < lines_of(content).len() ==> no_trailing_cr(#[trigger] lines_of(content)[i]),
    ensures
        lines_of(without_line(content, pos)) == drop_at(lines_of(content), pos),
{
    let ls = lines_of(content);
    let kept = drop_at(ls, pos);
    lemma_lines_no_newline(content);
    assert forall|i: int| 0 <= i < kept.len() implies no_newline(#[trigger] kept[i]) && no_trailing_cr(kept[i]) by {
        if 0 <= pos < ls.len() {
            if i < pos {
                assert(kept[i] == ls[i]);
            } else {
                assert(kept[i] == ls[i + 1]);
            }
        } else {
            assert(kept[i] == ls[i]);
        }
    }
    lemma_joined_terminated(kept);
    lemma_lines_of_terminated(kept);
}

/// Lines that are no comments all stay in a playlist.
pub proof fn lemma_no_comments_kept(ls: Seq<Seq<char>>)
    requires
        forall|i: int| 0 <= i < ls.len() ==> !is_comment(#[trigger] ls[i]),
    ensures
        ls.filter(|l: Seq<char>| !is_comment(l)) == ls,
    decreases ls.len(),
{
    if ls.len() > 0 {
        let front = ls.drop_last();
        assert forall|i: int| 0 <= i < front.len() implies !is_comment(#[trigger] front[i]) by {
            assert(front[i] == ls[i]);
        }
        lemma_no_comments_kept(front);
        front.lemma_filter_push(ls.last(), |l: Seq<char>| !is_comment(l));
        assert(front.push(ls.last()) =~= ls);
        assert(!is_comment(ls[ls.len() - 1]));
    } else {
        reveal(Seq::filter);
        assert(ls.filter(|l: Seq<char>| !is_comment(l)) =~= ls);
    }
}

/// Makes another pointer to the same list.
///
/// Trusted: `Rc::clone` hands back a pointer to the same value.
#[verifier::external_body]
fn share(r: &Rc<Vec<String>>) -> (s: Rc<Vec<String>>)
    ensures
        *s == **r,
{
    Rc::clone(r)
}

/// The songs of a playlist file, shared cheaply.
#[derive(Debug)]
pub struct Playlist(Rc<Vec<String>>);

impl Playlist {
    /// The paths of the songs, in order.
    pub closed spec fn songs(&self) -> Seq<Seq<char>> {
        views_of((*self.0)@)
    }

    /// The playlist that the file `content` holds.
    pub fn from_content(content: &str) -> (r: Self)
        ensures
            r.songs() == playlist_songs(content@),
    {
        Playlist(Rc::new(songs_of_playlist(content)))
    }

    /// The songs, shared with this playlist.
    pub fn inner(&self) -> (r: Rc<Vec<String>>)
        ensures
            views_of((*r)@) == self.songs(),
    {
        share(&self.0)
    }
}

} // verus!
