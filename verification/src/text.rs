use vstd::prelude::*;

verus! {

/// Appends one character to a string.
///
/// Trusted: `String::push` adds `c` at the end of the string and changes nothing else.
#[verifier::external_body]
pub(crate) fn push_char(s: &mut String, c: char)
    ensures
        final(s)@ == old(s)@.push(c),
{
    s.push(c);
}

/// The characters of a string slice, in order.
pub fn chars_of(s: &str) -> (v: Vec<char>)
    ensures
        v@ == s@,
{
    let mut v: Vec<char> = Vec::new();
    for c in iter: s.chars()
        invariant
            v@ == iter.seq().take(iter.index() as int),
    {
        v.push(c);
    }
    assert(v@ == s@);
    v
}

/// Whether two strings hold the same characters.
pub fn str_eq(a: &str, b: &str) -> (r: bool)
    ensures
        r == (a@ == b@),
{
    let av = chars_of(a);
    let bv = chars_of(b);
    if av.len() != bv.len() {
        return false;
    }
    let n = av.len();
    for i in 0..n
        invariant
            n == av@.len(),
            n == bv@.len(),
            av@ == a@,
            bv@ == b@,
            forall|j: int| 0 <= j < i ==> av@[j] == bv@[j],
    {
        if av[i] != bv[i] {
            assert(av@[i as int] != bv@[i as int]);
            return false;
        }
    }
    assert(av@ =~= bv@);
    true
}

/// Every character is an ASCII digit.
pub open spec fn all_digits(d: Seq<char>) -> bool {
    forall|i: int| 0 <= i < d.len() ==> '0' <= #[trigger] d[i] <= '9'
}

/// The number that a string of decimal digits stands for.
pub open spec fn digits_value(d: Seq<char>) -> int
    decreases d.len(),
{
    if d.len() == 0 {
        0
    } else {
        digits_value(d.drop_last()) * 10 + (d.last() as int - '0' as int)
    }
}

/// The integer that `s` writes in decimal, as `str::parse` reads it: an optional sign
/// `+` or `-`, then one digit or more, nothing else.
pub open spec fn decimal_value(s: Seq<char>) -> Option<int> {
    if s.len() > 0 && (s[0] == '+' || s[0] == '-') {
        let d = s.drop_first();
        if d.len() > 0 && all_digits(d) {
            Some(
                if s[0] == '-' {
                    -digits_value(d)
                } else {
                    digits_value(d)
                },
            )
        } else {
            None
        }
    } else if s.len() > 0 && all_digits(s) {
        Some(digits_value(s))
    } else {
        None
    }
}

/// What `str::parse::<i32>` gives for `s`.
pub open spec fn parse_i32_spec(s: Seq<char>) -> Option<i32> {
    match decimal_value(s) {
        Some(v) => if i32::MIN <= v <= i32::MAX {
            Some(v as i32)
        } else {
            None
        },
        None => None,
    }
}

proof fn lemma_digits_value_nonneg(d: Seq<char>)
    requires
        all_digits(d),
    ensures
        digits_value(d) >= 0,
    decreases d.len(),
{
    if d.len() > 0 {
        assert(all_digits(d.drop_last()));
        lemma_digits_value_nonneg(d.drop_last());
    }
}

proof fn lemma_digits_value_grows(d: Seq<char>, i: int)
    requires
        all_digits(d),
        0 <= i <= d.len(),
    ensures
        digits_value(d.take(i)) <= digits_value(d),
    decreases d.len() - i,
{
    if i < d.len() {
        lemma_digits_value_grows(d, i + 1);
        assert(d.take(i + 1).drop_last() =~= d.take(i));
        assert(all_digits(d.take(i)));
        lemma_digits_value_nonneg(d.take(i));
        assert(digits_value(d.take(i + 1)) == digits_value(d.take(i)) * 10 + (d[i] as int - '0' as int));
    } else {
        assert(d.take(i) =~= d);
    }
}

/// Reads a decimal `i32` the way `str::parse::<i32>` does.
pub fn parse_i32(s: &str) -> (r: Option<i32>)
    ensures
        r == parse_i32_spec(s@),
{
    let v = chars_of(s);
    let n = v.len();
    if n == 0 {
        return None;
    }
    let neg = v[0] == '-';
    let start: usize = if v[0] == '+' || v[0] == '-' {
        1
    } else {
        0
    };
    if start == n {
        return None;
    }
    let ghost d = v@.skip(start as int);
    assert(start == 1 ==> d =~= v@.drop_first());
    assert(start == 0 ==> d =~= v@);
    let mut acc: i64 = 0;
    let mut i = start;
    while i < n
        invariant
            n == v@.len(),
            v@ == s@,
            start <= i <= n,
            d == v@.skip(start as int),
            start == 0 || start == 1,
            start == 1 ==> d == v@.drop_first() && (v@[0] == '+' || v@[0] == '-'),
            start == 0 ==> d == v@ && v@[0] != '+' && v@[0] != '-',
            neg == (v@[0] == '-'),
            d.len() > 0,
            0 <= acc <= 2147483648,
            forall|j: int| start <= j < i ==> '0' <= #[trigger] v@[j] <= '9',
            acc == digits_value(d.take(i - start)),
        decreases n - i,
    {
        let c = v[i];
        if !('0' <= c && c <= '9') {
            proof {
                assert(!all_digits(d)) by {
                    assert(d[i - start] == c);
                }
            }
            return None;
        }
        let digit = (c as u32 - '0' as u32) as i64;
        proof {
            assert(d.take(i - start + 1).drop_last() =~= d.take(i - start));
            assert(d.take(i - start + 1).last() == c);
        }
        acc = acc * 10 + digit;
        if acc > 2147483648 {
            proof {
                assert(all_digits(d.take(i - start + 1)));
                if all_digits(d) {
                    lemma_digits_value_grows(d, i - start + 1);
                }
            }
            return None;
        }
        i = i + 1;
    }
    proof {
        assert(d.take(n - start) =~= d);
        assert(all_digits(d));
        if start == 0 {
            assert(d =~= v@);
        }
    }
    if neg {
        Some((0 - acc) as i32)
    } else if acc <= 2147483647 {
        Some(acc as i32)
    } else {
        None
    }
}

/// Unicode's White_Space property: the characters that `char::is_whitespace` accepts.
pub open spec fn is_white_space(c: char) -> bool {
    ||| '\u{9}' <= c <= '\u{d}'
    ||| c == ' '
    ||| c == '\u{85}'
    ||| c == '\u{a0}'
    ||| c == '\u{1680}'
    ||| '\u{2000}' <= c <= '\u{200a}'
    ||| c == '\u{2028}'
    ||| c == '\u{2029}'
    ||| c == '\u{202f}'
    ||| c == '\u{205f}'
    ||| c == '\u{3000}'
}

/// Whether `c` has Unicode's White_Space property.
pub fn is_whitespace(c: char) -> (r: bool)
    ensures
        r == is_white_space(c),
{
    ('\u{9}' <= c && c <= '\u{d}') || c == ' ' || c == '\u{85}' || c == '\u{a0}' || c
        == '\u{1680}' || ('\u{2000}' <= c && c <= '\u{200a}') || c == '\u{2028}' || c
        == '\u{2029}' || c == '\u{202f}' || c == '\u{205f}' || c == '\u{3000}'
}

/// What `char::is_alphanumeric` answers for `c`: whether it has Unicode's
/// Alphabetic property or a Numeric general category.
pub uninterp spec fn char_is_alphanumeric(c: char) -> bool;

/// Whether `c` is alphanumeric.
///
/// Trusted: `char::is_alphanumeric` is a function of `c` alone; ASCII letters and
/// digits are alphanumeric and the other ASCII characters are not.
#[verifier::external_body]
pub(crate) fn is_alphanumeric(c: char) -> (r: bool)
    ensures
        r == char_is_alphanumeric(c),
        ('a' <= c <= 'z' || 'A' <= c <= 'Z' || '0' <= c <= '9') ==> r,
        (c <= '\u{7f}' && !('a' <= c <= 'z' || 'A' <= c <= 'Z' || '0' <= c <= '9')) ==> !r,
{
    c.is_alphanumeric()
}


/// The string of the first `n` characters of `v`.
pub fn string_of(v: &Vec<char>, n: usize) -> (s: String)
    requires
        n <= v@.len(),
    ensures
        s@ == v@.take(n as int),
{
    let mut s = String::new();
    let mut i: usize = 0;
    while i < n
        invariant
            i <= n,
            n <= v@.len(),
            s@ == v@.take(i as int),
        decreases n - i,
    {
        push_char(&mut s, v[i]);
        assert(v@.take(i as int).push(v@[i as int]) =~= v@.take(i as int + 1));
        i = i + 1;
    }
    s
}

/// A line as `str::lines` gives it back when a `\n` ended it: a `\r` just before
/// the `\n` goes too.
pub open spec fn without_cr(l: Seq<char>) -> Seq<char> {
    if l.len() > 0 && l.last() == '\r' {
        l.drop_last()
    } else {
        l
    }
}

/// The lines finished so far in `s`, and the line still open at its end.
pub open spec fn lines_acc(s: Seq<char>) -> (Seq<Seq<char>>, Seq<char>)
    decreases s.len(),
{
    if s.len() == 0 {
        (Seq::empty(), Seq::empty())
    } else {
        let (done, cur) = lines_acc(s.drop_last());
        if s.last() == '\n' {
            (done.push(without_cr(cur)), Seq::empty())
        } else {
            (done, cur.push(s.last()))
        }
    }
}

/// The lines of `s`, as `str::lines` (and `BufRead::lines`) split it: each ends at a
/// `\n`, or a `\r\n`, which is dropped; a last line without one counts when it is
/// not empty.
pub open spec fn lines_of(s: Seq<char>) -> Seq<Seq<char>> {
    let (done, cur) = lines_acc(s);
    if cur.len() > 0 {
        done.push(cur)
    } else {
        done
    }
}


/// The character of a decimal digit.
pub open spec fn digit_char(d: int) -> char {
    if d == 0 {
        '0'
    } else if d == 1 {
        '1'
    } else if d == 2 {
        '2'
    } else if d == 3 {
        '3'
    } else if d == 4 {
        '4'
    } else if d == 5 {
        '5'
    } else if d == 6 {
        '6'
    } else if d == 7 {
        '7'
    } else if d == 8 {
        '8'
    } else {
        '9'
    }
}

/// `n` written in decimal, without leading zeros.
pub open spec fn decimal(n: nat) -> Seq<char>
    decreases n,
{
    if n < 10 {
        seq![digit_char(n as int)]
    } else {
        decimal(n / 10).push(digit_char((n % 10) as int))
    }
}

fn digit(d: u64) -> (c: char)
    requires
        d < 10,
    ensures
        c == digit_char(d as int),
{
    if d == 0 {
        '0'
    } else if d == 1 {
        '1'
    } else if d == 2 {
        '2'
    } else if d == 3 {
        '3'
    } else if d == 4 {
        '4'
    } else if d == 5 {
        '5'
    } else if d == 6 {
        '6'
    } else if d == 7 {
        '7'
    } else if d == 8 {
        '8'
    } else {
        '9'
    }
}

/// Appends `n` in decimal to `s`.
pub fn push_decimal(s: &mut String, n: u64)
    ensures
        final(s)@ == old(s)@ + decimal(n as nat),
    decreases n,
{
    if n >= 10 {
        push_decimal(s, n / 10);
    }
    let ghost before = s@;
    push_char(s, digit(n % 10));
    proof {
        if n >= 10 {
            assert(s@ =~= old(s)@ + decimal(n as nat));
        } else {
            assert(s@ =~= old(s)@ + decimal(n as nat));
        }
    }
}

/// The character views of strings.
pub open spec fn views_of(v: Seq<String>) -> Seq<Seq<char>> {
    Seq::new(v.len(), |i: int| v[i]@)
}


/// No line break in the text.
pub open spec fn no_newline(l: Seq<char>) -> bool {
    forall|i: int| 0 <= i < l.len() ==> l[i] != '\n'
}

/// The text does not end with a carriage return.
pub open spec fn no_trailing_cr(l: Seq<char>) -> bool {
    !(l.len() > 0 && l.last() == '\r')
}

/// Lines, each followed by `\n`.
pub open spec fn terminated(ls: Seq<Seq<char>>) -> Seq<char>
    decreases ls.len(),
{
    if ls.len() == 0 {
        Seq::empty()
    } else {
        terminated(ls.drop_last()) + ls.last() + seq!['\n']
    }
}

/// Reading on through text without a line break extends the open line.
pub proof fn lemma_lines_acc_append(s: Seq<char>, l: Seq<char>)
    requires
        no_newline(l),
    ensures
        lines_acc(s + l) == (lines_acc(s).0, lines_acc(s).1 + l),
    decreases l.len(),
{
    if l.len() == 0 {
        assert(s + l =~= s);
        assert(lines_acc(s).1 + l =~= lines_acc(s).1);
    } else {
        lemma_lines_acc_append(s, l.drop_last());
        assert((s + l).drop_last() =~= s + l.drop_last());
        assert((s + l).last() == l.last());
        assert(lines_acc(s).1 + l.drop_last() + seq![l.last()] =~= lines_acc(s).1 + l);
    }
}

/// The lines that `lines_acc` has finished hold no line break, nor does the open one.
pub proof fn lemma_lines_acc_no_newline(s: Seq<char>)
    ensures
        forall|i: int| 0 <= i < lines_acc(s).0.len() ==> no_newline(#[trigger] lines_acc(s).0[i]),
        no_newline(lines_acc(s).1),
    decreases s.len(),
{
    if s.len() > 0 {
        lemma_lines_acc_no_newline(s.drop_last());
        let (d, c) = lines_acc(s.drop_last());
        if s.last() != '\n' {
            assert(no_newline(c.push(s.last())));
        } else {
            assert(no_newline(without_cr(c)));
            assert forall|i: int| 0 <= i < d.push(without_cr(c)).len() implies no_newline(
                #[trigger] d.push(without_cr(c))[i],
            ) by {
                if i < d.len() {
                    assert(d.push(without_cr(c))[i] == d[i]);
                }
            }
        }
    }
}

/// The lines of `s` hold no line break.
pub proof fn lemma_lines_no_newline(s: Seq<char>)
    ensures
        forall|i: int| 0 <= i < lines_of(s).len() ==> no_newline(#[trigger] lines_of(s)[i]),
{
    lemma_lines_acc_no_newline(s);
    let (d, c) = lines_acc(s);
    if c.len() > 0 {
        assert forall|i: int| 0 <= i < d.push(c).len() implies no_newline(#[trigger] d.push(c)[i]) by {
            if i < d.len() {
                assert(d.push(c)[i] == d[i]);
            }
        }
    }
}

/// Lines each followed by `\n` are read back as they were, when none holds a line
/// break or ends with a carriage return.
pub proof fn lemma_lines_of_terminated(ls: Seq<Seq<char>>)
    requires
        forall|i: int| 0 <= i < ls.len() ==> no_newline(#[trigger] ls[i]) && no_trailing_cr(ls[i]),
    ensures
        lines_acc(terminated(ls)) == (ls, Seq::<char>::empty()),
        lines_of(terminated(ls)) == ls,
    decreases ls.len(),
{
    if ls.len() > 0 {
        let front = ls.drop_last();
        assert forall|i: int| 0 <= i < front.len() implies no_newline(#[trigger] front[i]) && no_trailing_cr(front[i]) by {
            assert(front[i] == ls[i]);
        }
        lemma_lines_of_terminated(front);
        let l = ls.last();
        assert(no_newline(l) && no_trailing_cr(l)) by {
            assert(l == ls[ls.len() - 1]);
        }
        lemma_lines_acc_append(terminated(front), l);
        let t = terminated(front) + l;
        assert(terminated(ls) == t + seq!['\n']);
        assert((t + seq!['\n']).drop_last() =~= t);
        assert(Seq::<char>::empty() + l =~= l);
        assert(front.push(l) =~= ls);
    } else {
        assert(terminated(ls) =~= Seq::<char>::empty());
        assert(ls =~= Seq::<Seq<char>>::empty());
    }
}

/// The lines of `s`.
pub fn lines(s: &str) -> (r: Vec<String>)
    ensures
        views_of(r@) == lines_of(s@),
{
    let v = chars_of(s);
    let mut done: Vec<String> = Vec::new();
    let mut cur: Vec<char> = Vec::new();
    let mut i: usize = 0;
    while i < v.len()
        invariant
            i <= v@.len(),
            v@ == s@,
            (views_of(done@), cur@) == lines_acc(v@.take(i as int)),
        decreases v@.len() - i,
    {
        let c = v[i];
        proof {
            assert(v@.take(i as int + 1).drop_last() =~= v@.take(i as int));
        }
        if c == '\n' {
            let n = if cur.len() > 0 && cur[cur.len() - 1] == '\r' {
                cur.len() - 1
            } else {
                cur.len()
            };
            let line = string_of(&cur, n);
            proof {
                if cur@.len() > 0 && cur@.last() == '\r' {
                    assert(cur@.take(n as int) =~= cur@.drop_last());
                } else {
                    assert(cur@.take(n as int) =~= cur@);
                }
            }
            let ghost old_done = done@;
            done.push(line);
            proof {
                assert(views_of(done@) =~= views_of(old_done).push(without_cr(cur@)));
            }
            cur = Vec::new();
        } else {
            cur.push(c);
        }
        i = i + 1;
    }
    assert(v@.take(v@.len() as int) =~= v@);
    if cur.len() > 0 {
        let line = string_of(&cur, cur.len());
        assert(cur@.take(cur@.len() as int) =~= cur@);
        let ghost old_done = done@;
        done.push(line);
        proof {
            assert(views_of(done@) =~= views_of(old_done).push(cur@));
        }
    }
    done
}

} // verus!
