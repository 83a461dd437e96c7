//! Paths as text with `/` between components: file names, stems, extensions and joins.
use vstd::prelude::*;
use crate::text::{str_chars, string_from_chars};

verus! {

/// The position of the last `c` in `s`, or `-1` when there is none.
pub open spec fn last_index_of(s: Seq<char>, c: char) -> int
    decreases s.len(),
{
    if s.len() == 0 {
        -1
    } else if s.last() == c {
        s.len() - 1
    } else {
        last_index_of(s.drop_last(), c)
    }
}

/// The last `c` lies inside `s`, and nothing after it is `c`.
pub proof fn lemma_last_index_of(s: Seq<char>, c: char)
    ensures
        -1 <= last_index_of(s, c) < s.len(),
        last_index_of(s, c) >= 0 ==> s[last_index_of(s, c)] == c,
        forall|k: int| last_index_of(s, c) < k < s.len() ==> s[k] != c,
    decreases s.len(),
{
    if s.len() > 0 && s.last() != c {
        let rest = s.drop_last();
        lemma_last_index_of(rest, c);
        assert forall|k: int| last_index_of(s, c) < k < s.len() implies s[k] != c by {
            if k < rest.len() {
                assert(rest[k] == s[k]);
            }
        }
    }
}

/// The final component of a path: what follows the last `/`.
pub open spec fn file_name_of(path: Seq<char>) -> Seq<char> {
    path.skip(last_index_of(path, '/') + 1)
}

/// Where the extension's dot sits in a file name, or the name's length when the name
/// has no extension: a name has one when its last dot is not its first character,
/// and the name is not `..`.
pub open spec fn stem_len(name: Seq<char>) -> int {
    let k = last_index_of(name, '.');
    if k <= 0 || name == seq!['.', '.'] {
        name.len() as int
    } else {
        k
    }
}

/// The file name without its extension.
pub open spec fn file_stem_of(path: Seq<char>) -> Seq<char> {
    let name = file_name_of(path);
    name.take(stem_len(name))
}

/// The extension of the file name, without its dot.
pub open spec fn extension_of(path: Seq<char>) -> Option<Seq<char>> {
    let name = file_name_of(path);
    if stem_len(name) == name.len() {
        None
    } else {
        Some(name.skip(stem_len(name) + 1))
    }
}

/// `base` followed by the relative path `name`, with one `/` between them unless
/// `base` is empty or already ends in one.
pub open spec fn join_of(base: Seq<char>, name: Seq<char>) -> Seq<char> {
    if base.len() == 0 || base.last() == '/' {
        base + name
    } else {
        base.push('/') + name
    }
}

/// Finds the last `c` in `s`.
pub fn last_index(s: &Vec<char>, c: char) -> (r: Option<usize>)
    ensures
        r matches Some(k) ==> k == last_index_of(s@, c) && k < s@.len(),
        r is None ==> last_index_of(s@, c) == -1,
{
    let mut i: usize = s.len();
    assert(s@.take(i as int) == s@);
    while i > 0
        invariant
            i <= s.len(),
            last_index_of(s@, c) == last_index_of(s@.take(i as int), c),
        decreases i,
    {
        if s[i - 1] == c {
            assert(s@.take(i as int).last() == c);
            return Some(i - 1);
        }
        proof {
            assert(s@.take(i as int).drop_last() == s@.take(i - 1));
        }
        i = i - 1;
    }
    proof {
        assert(s@.take(0).len() == 0);
    }
    None
}

/// Copies the characters `from..to` of `s`.
pub fn slice_chars(s: &Vec<char>, from: usize, to: usize) -> (out: Vec<char>)
    requires
        from <= to <= s@.len(),
    ensures
        out@ == s@.subrange(from as int, to as int),
{
    let mut out: Vec<char> = Vec::new();
    let mut i: usize = from;
    while i < to
        invariant
            from <= i <= to <= s@.len(),
            out@ == s@.subrange(from as int, i as int),
        decreases to - i,
    {
        out.push(s[i]);
        proof {
            assert(s@.subrange(from as int, i + 1) == s@.subrange(from as int, i as int).push(
                s@[i as int],
            ));
        }
        i = i + 1;
    }
    out
}

fn name_chars(path: &Vec<char>) -> (name: Vec<char>)
    ensures
        name@ == file_name_of(path@),
{
    proof {
        lemma_last_index_of(path@, '/');
    }
    let n: usize = path.len();
    match last_index(path, '/') {
        Some(k) => slice_chars(path, k + 1, n),
        None => slice_chars(path, 0, n),
    }
}

fn stem_length(name: &Vec<char>) -> (n: usize)
    ensures
        n == stem_len(name@),
        n <= name@.len(),
{
    proof {
        lemma_last_index_of(name@, '.');
    }
    if name.len() == 2 && name[0] == '.' && name[1] == '.' {
        assert(name@ =~= seq!['.', '.']);
        return name.len();
    }
    assert(name@ != seq!['.', '.']) by {
        if name@ == seq!['.', '.'] {
            assert(name@.len() == 2 && name@[0] == '.' && name@[1] == '.');
        }
    }
    match last_index(name, '.') {
        Some(k) => if k == 0 {
            name.len()
        } else {
            k
        },
        None => name.len(),
    }
}

/// The final component of a path.
pub fn file_name(path: &str) -> (name: String)
    ensures
        name@ == file_name_of(path@),
{
    let chars = str_chars(path);
    let name = name_chars(&chars);
    string_from_chars(&name)
}

/// The file name of a path without its extension.
pub fn file_stem(path: &str) -> (stem: String)
    ensures
        stem@ == file_stem_of(path@),
{
    let chars = str_chars(path);
    let name = name_chars(&chars);
    let n = stem_length(&name);
    let stem = slice_chars(&name, 0, n);
    string_from_chars(&stem)
}

/// The extension of a path's file name, without its dot.
pub fn extension(path: &str) -> (ext: Option<String>)
    ensures
        ext is Some == extension_of(path@) is Some,
        ext matches Some(e) ==> e@ == extension_of(path@)->Some_0,
{
    let chars = str_chars(path);
    let name = name_chars(&chars);
    let n = stem_length(&name);
    if n == name.len() {
        None
    } else {
        let ext = slice_chars(&name, n + 1, name.len());
        Some(string_from_chars(&ext))
    }
}

/// Appends the relative path `name` to `base`.
pub fn join(base: &str, name: &str) -> (joined: String)
    ensures
        joined@ == join_of(base@, name@),
{
    let mut out = str_chars(base);
    let n: usize = out.len();
    if n > 0 && out[n - 1] != '/' {
        out.push('/');
    }
    let more = str_chars(name);
    crate::text::push_all(&mut out, &more);
    string_from_chars(&out)
}

/// Tests whether the path's extension is exactly `wanted`.
pub fn has_extension(path: &str, wanted: &str) -> (r: bool)
    ensures
        r == (extension_of(path@) == Some(wanted@)),
{
    match extension(path) {
        None => false,
        Some(e) => {
            let w = String::from_str(wanted);
            e == w
        },
    }
}

/// The path with the extension of its file name replaced by `ext`, or with `ext`
/// added when the file name has none.
pub open spec fn with_extension_of(path: Seq<char>, ext: Seq<char>) -> Seq<char> {
    path.take(last_index_of(path, '/') + 1 + stem_len(file_name_of(path))) + seq!['.'] + ext
}

/// Replaces the extension of a path's file name.
pub fn with_extension(path: &str, ext: &str) -> (out: String)
    ensures
        out@ == with_extension_of(path@, ext@),
{
    let chars = str_chars(path);
    let n: usize = chars.len();
    proof {
        lemma_last_index_of(chars@, '/');
    }
    let start: usize = match last_index(&chars, '/') {
        Some(k) => k + 1,
        None => 0,
    };
    let name = slice_chars(&chars, start, n);
    assert(chars@.subrange(start as int, n as int) == chars@.skip(start as int));
    let keep: usize = stem_length(&name);
    let mut out = slice_chars(&chars, 0, start + keep);
    assert(chars@.subrange(0, start + keep) == chars@.take(start + keep));
    out.push('.');
    let more = str_chars(ext);
    crate::text::push_all(&mut out, &more);
    string_from_chars(&out)
}

/// No character of `s` is `c`.
pub open spec fn lacks(s: Seq<char>, c: char) -> bool {
    forall|i: int| 0 <= i < s.len() ==> s[i] != c
}

/// What lacks a character still lacks it when put together.
pub proof fn lemma_lacks_concat(a: Seq<char>, b: Seq<char>, c: char)
    requires
        lacks(a, c),
        lacks(b, c),
    ensures
        lacks(a + b, c),
{
    assert forall|i: int| 0 <= i < (a + b).len() implies (a + b)[i] != c by {
        if i < a.len() {
            assert((a + b)[i] == a[i]);
        } else {
            assert((a + b)[i] == b[i - a.len()]);
        }
    }
}

/// The last `c` is where a `c` stands that no `c` follows.
pub proof fn lemma_last_index_is(s: Seq<char>, c: char, k: int)
    requires
        0 <= k < s.len(),
        s[k] == c,
        forall|j: int| k < j < s.len() ==> s[j] != c,
    ensures
        last_index_of(s, c) == k,
{
    lemma_last_index_of(s, c);
}

/// There is no last `c` in what lacks `c`.
pub proof fn lemma_last_index_none(s: Seq<char>, c: char)
    requires
        lacks(s, c),
    ensures
        last_index_of(s, c) == -1,
{
    lemma_last_index_of(s, c);
}

/// A file name made of a stem, a dot and an extension has that extension, when
/// neither part holds a slash and the extension holds no dot.
pub proof fn lemma_extension_of_name(stem: Seq<char>, ext: Seq<char>)
    requires
        stem.len() > 0,
        ext.len() > 0,
        lacks(stem, '/'),
        lacks(ext, '/'),
        lacks(ext, '.'),
    ensures
        file_name_of(stem + seq!['.'] + ext) == stem + seq!['.'] + ext,
        extension_of(stem + seq!['.'] + ext) == Some(ext),
        file_stem_of(stem + seq!['.'] + ext) == stem,
{
    let name = stem + seq!['.'] + ext;
    let k = stem.len() as int;
    assert(lacks(seq!['.'], '/'));
    lemma_lacks_concat(stem, seq!['.'], '/');
    lemma_lacks_concat(stem + seq!['.'], ext, '/');
    lemma_last_index_none(name, '/');
    assert(name.skip(0) =~= name);
    assert(name[k] == '.');
    assert forall|j: int| k < j < name.len() implies name[j] != '.' by {
        assert(name[j] == ext[j - k - 1]);
    }
    lemma_last_index_is(name, '.', k);
    assert(name != seq!['.', '.']) by {
        if name == seq!['.', '.'] {
            assert(name.len() == 2);
            assert(stem.len() == 1 && ext.len() == 0);
        }
    }
    assert(name.skip(k + 1) =~= ext);
    assert(name.take(k) =~= stem);
}

} // verus!
