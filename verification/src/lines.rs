//! Line-oriented text helpers: trimming, splitting into lines, joining.
use vstd::prelude::*;
use crate::paths::slice_chars;
use crate::text::push_all;

verus! {

/// `c` is white space.
pub open spec fn is_space(c: char) -> bool {
    let u = c as u32;
    ||| 9 <= u <= 13
    ||| u == 32
    ||| u == 0x85
    ||| u == 0xA0
    ||| u == 0x1680
    ||| 0x2000 <= u <= 0x200A
    ||| u == 0x2028
    ||| u == 0x2029
    ||| u == 0x202F
    ||| u == 0x205F
    ||| u == 0x3000
}

/// Tests whether `c` is white space.
pub fn space(c: char) -> (r: bool)
    ensures
        r == is_space(c),
{
    let u: u32 = c as u32;
    (9 <= u && u <= 13) || u == 32 || u == 0x85 || u == 0xA0 || u == 0x1680 || (0x2000 <= u && u
        <= 0x200A) || u == 0x2028 || u == 0x2029 || u == 0x202F || u == 0x205F || u == 0x3000
}

/// The first position at or after `i` that holds no white space.
pub open spec fn spaces_end(s: Seq<char>, i: int) -> int
    decreases s.len() - i,
{
    if 0 <= i < s.len() && is_space(s[i]) {
        spaces_end(s, i + 1)
    } else {
        i
    }
}

/// The position at or before `end` from which on everything up to `end` is white space.
pub open spec fn spaces_start(s: Seq<char>, end: int) -> int
    decreases end,
{
    if 0 < end <= s.len() && is_space(s[end - 1]) {
        spaces_start(s, end - 1)
    } else {
        end
    }
}

/// `s` without its leading white space.
pub open spec fn trim_start_of(s: Seq<char>) -> Seq<char> {
    s.skip(spaces_end(s, 0))
}

/// `s` without its trailing white space.
pub open spec fn trim_end_of(s: Seq<char>) -> Seq<char> {
    s.take(spaces_start(s, s.len() as int))
}

/// `s` without its leading and trailing white space.
pub open spec fn trim_of(s: Seq<char>) -> Seq<char> {
    trim_end_of(trim_start_of(s))
}

/// Removes leading white space.
pub fn trim_start(s: &Vec<char>) -> (out: Vec<char>)
    ensures
        out@ == trim_start_of(s@),
{
    let mut i: usize = 0;
    while i < s.len() && space(s[i])
        invariant
            i <= s@.len(),
            spaces_end(s@, 0) == spaces_end(s@, i as int),
        decreases s.len() - i,
    {
        i = i + 1;
    }
    let out = slice_chars(s, i, s.len());
    assert(s@.subrange(i as int, s@.len() as int) == s@.skip(i as int));
    out
}

/// Removes trailing white space.
pub fn trim_end(s: &Vec<char>) -> (out: Vec<char>)
    ensures
        out@ == trim_end_of(s@),
{
    let mut i: usize = s.len();
    while i > 0 && space(s[i - 1])
        invariant
            i <= s@.len(),
            spaces_start(s@, s@.len() as int) == spaces_start(s@, i as int),
        decreases i,
    {
        i = i - 1;
    }
    let out = slice_chars(s, 0, i);
    assert(s@.subrange(0, i as int) == s@.take(i as int));
    out
}

/// Removes leading and trailing white space.
pub fn trim(s: &Vec<char>) -> (out: Vec<char>)
    ensures
        out@ == trim_of(s@),
{
    let a = trim_start(s);
    trim_end(&a)
}

/// The first position at or after `i` that holds a line feed, or the length.
pub open spec fn line_end(s: Seq<char>, i: int) -> int
    decreases s.len() - i,
{
    if 0 <= i < s.len() && s[i] != '\n' {
        line_end(s, i + 1)
    } else {
        i
    }
}

/// The line `s[from..end]` without the carriage return that precedes its line feed,
/// if the line ends in a line feed at all.
pub open spec fn line_text(s: Seq<char>, from: int, end: int) -> Seq<char> {
    if end < s.len() && from < end && s[end - 1] == '\r' {
        s.subrange(from, end - 1)
    } else {
        s.subrange(from, end)
    }
}

/// The lines of `s` from position `i` on. A line ends at a line feed or at a carriage
/// return followed by a line feed; the line ending is not part of the line; what
/// follows the last line feed is a line only when it is not empty.
pub open spec fn lines_from(s: Seq<char>, i: int) -> Seq<Seq<char>>
    decreases s.len() - i,
{
    if i < 0 || i >= s.len() {
        Seq::empty()
    } else {
        let e = line_end(s, i);
        if e < i || e >= s.len() {
            seq![line_text(s, i, e)]
        } else {
            seq![line_text(s, i, e)] + lines_from(s, e + 1)
        }
    }
}

/// The lines of `s`.
pub open spec fn lines_of(s: Seq<char>) -> Seq<Seq<char>> {
    lines_from(s, 0)
}

/// Splits text into its lines.
pub fn split_lines(s: &Vec<char>) -> (lines: Vec<Vec<char>>)
    ensures
        lines@.len() == lines_of(s@).len(),
        forall|k: int| 0 <= k < lines@.len() ==> (#[trigger] lines@[k])@ == lines_of(s@)[k],
{
    let n: usize = s.len();
    let mut lines: Vec<Vec<char>> = Vec::new();
    let ghost mut done: Seq<Seq<char>> = Seq::empty();
    let mut i: usize = 0;
    while i < n
        invariant
            i <= n,
            n == s@.len(),
            lines@.len() == done.len(),
            forall|k: int| 0 <= k < lines@.len() ==> (#[trigger] lines@[k])@ == done[k],
            lines_of(s@) == done + lines_from(s@, i as int),
        decreases n - i,
    {
        let mut e: usize = i;
        while e < n && s[e] != '\n'
            invariant
                i <= e <= n,
                n == s@.len(),
                line_end(s@, i as int) == line_end(s@, e as int),
            decreases n - e,
        {
            e = e + 1;
        }
        let line = if e < n && i < e && s[e - 1] == '\r' {
            slice_chars(s, i, e - 1)
        } else {
            slice_chars(s, i, e)
        };
        let next: usize = if e < n {
            e + 1
        } else {
            n
        };
        proof {
            let rest = lines_from(s@, next as int);
            if e >= n {
                assert(rest =~= Seq::<Seq<char>>::empty());
                assert(lines_from(s@, i as int) =~= seq![line@] + rest);
            } else {
                assert(lines_from(s@, i as int) == seq![line@] + rest);
            }
            assert(done + (seq![line@] + rest) =~= done.push(line@) + rest);
            done = done.push(line@);
        }
        lines.push(line);
        i = next;
    }
    proof {
        assert(lines_from(s@, i as int) =~= Seq::<Seq<char>>::empty());
        assert(done + Seq::<Seq<char>>::empty() =~= done);
    }
    lines
}

/// The first `n` lines with a line feed between every two of them.
pub open spec fn joined_upto(lines: Seq<Seq<char>>, n: nat) -> Seq<char>
    decreases n,
{
    if n == 0 {
        Seq::empty()
    } else if n == 1 {
        lines[0]
    } else {
        joined_upto(lines, (n - 1) as nat) + seq!['\n'] + lines[n - 1]
    }
}

/// The lines with a line feed between every two of them.
pub open spec fn joined(lines: Seq<Seq<char>>) -> Seq<char> {
    joined_upto(lines, lines.len())
}

/// The lines of a list as sequences of characters.
pub open spec fn line_views(lines: Seq<Vec<char>>) -> Seq<Seq<char>> {
    Seq::new(lines.len(), |i: int| lines[i]@)
}

/// Joins lines with a line feed between every two of them.
pub fn join_lines(lines: &Vec<Vec<char>>) -> (out: Vec<char>)
    ensures
        out@ == joined(line_views(lines@)),
{
    let ghost lv = line_views(lines@);
    let mut out: Vec<char> = Vec::new();
    let mut i: usize = 0;
    while i < lines.len()
        invariant
            i <= lines@.len(),
            lv == line_views(lines@),
            out@ == joined_upto(lv, i as nat),
        decreases lines.len() - i,
    {
        if i > 0 {
            out.push('\n');
        }
        assert(lv[i as int] == lines@[i as int]@);
        push_all(&mut out, &lines[i]);
        proof {
            if i == 0 {
                assert(out@ =~= lv[0]);
            } else {
                assert(out@ =~= joined_upto(lv, i as nat) + seq!['\n'] + lv[i as int]);
            }
        }
        i = i + 1;
    }
    out
}

} // verus!
