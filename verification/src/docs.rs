//! Text rules of the documentation generator: cleaning comment blocks, cleaning the
//! indentation of a body, and finding the header and the balanced body of a declaration.
//! Positions in a text are byte offsets, as everywhere in `str`.
use vstd::prelude::*;
use vstd::string::*;
use vstd::utf8::*;
use crate::lines::{
    join_lines, joined, line_views, lines_of, split_lines, trim, trim_end, trim_end_of, trim_of,
};
use crate::paths::slice_chars;
use crate::text::{str_chars, string_from_chars};

verus! {

/// The arguments of the documentation command.
#[derive(Debug)]
pub struct DocsArgs {
    /// The directory that is scanned; the framework directory when absent.
    pub dir: Option<String>,
    /// The directory that receives the pages; `./docs` when absent.
    pub target: Option<String>,
    /// The word that marks a documented item.
    pub trigger: String,
}

impl DocsArgs {
    /// The directory that is scanned.
    pub fn source_dir(&self) -> (dir: String)
        ensures
            dir@ == match self.dir {
                Some(d) => d@,
                None => "./bonsai"@,
            },
    {
        match &self.dir {
            Some(d) => d.clone(),
            None => String::from_str("./bonsai"),
        }
    }

    /// The directory that receives the pages.
    pub fn target_dir(&self) -> (dir: String)
        ensures
            dir@ == match self.target {
                Some(d) => d@,
                None => "./docs"@,
            },
    {
        match &self.target {
            Some(d) => d.clone(),
            None => String::from_str("./docs"),
        }
    }
}

/// The first position at or after `i` that does not begin with two slashes.
pub open spec fn slashes_end(s: Seq<char>, i: int) -> int
    decreases s.len() - i,
{
    if 0 <= i && i + 2 <= s.len() && s[i] == '/' && s[i + 1] == '/' {
        slashes_end(s, i + 2)
    } else {
        i
    }
}

/// A comment line without its markers: the line is trimmed, every leading pair of
/// slashes is dropped, then one space if there is one, then trailing white space.
pub open spec fn clean_line(line: Seq<char>) -> Seq<char> {
    let t = trim_of(line);
    let a = t.skip(slashes_end(t, 0));
    let b = if a.len() > 0 && a[0] == ' ' {
        a.skip(1)
    } else {
        a
    };
    trim_end_of(b)
}

/// The text of a comment block without its markers, line by line.
pub open spec fn cleaned_comments(raw: Seq<char>) -> Seq<char> {
    let lines = lines_of(raw);
    joined(Seq::new(lines.len(), |i: int| clean_line(lines[i])))
}

fn clean_one_line(line: &Vec<char>) -> (out: Vec<char>)
    ensures
        out@ == clean_line(line@),
{
    let t = trim(line);
    let n: usize = t.len();
    let mut i: usize = 0;
    while i < n && n - i >= 2 && t[i] == '/' && t[i + 1] == '/'
        invariant
            i <= n,
            n == t@.len(),
            slashes_end(t@, 0) == slashes_end(t@, i as int),
        decreases n - i,
    {
        i = i + 2;
    }
    let a = slice_chars(&t, i, n);
    assert(t@.subrange(i as int, n as int) == t@.skip(i as int));
    let b = if a.len() > 0 && a[0] == ' ' {
        let b = slice_chars(&a, 1, a.len());
        assert(a@.subrange(1, a@.len() as int) == a@.skip(1));
        b
    } else {
        a
    };
    trim_end(&b)
}

/// Removes the comment markers from a block of comment lines.
pub fn clean_comments(raw: &str) -> (out: String)
    ensures
        out@ == cleaned_comments(raw@),
{
    let chars = str_chars(raw);
    let lines = split_lines(&chars);
    let ghost spec_lines = lines_of(raw@);
    let mut cleaned: Vec<Vec<char>> = Vec::new();
    let mut i: usize = 0;
    while i < lines.len()
        invariant
            i <= lines@.len(),
            lines@.len() == spec_lines.len(),
            forall|k: int| 0 <= k < lines@.len() ==> (#[trigger] lines@[k])@ == spec_lines[k],
            cleaned@.len() == i,
            forall|k: int| 0 <= k < i ==> (#[trigger] cleaned@[k])@ == clean_line(spec_lines[k]),
        decreases lines.len() - i,
    {
        cleaned.push(clean_one_line(&lines[i]));
        i = i + 1;
    }
    assert(line_views(cleaned@) =~= Seq::new(
        spec_lines.len(),
        |i: int| clean_line(spec_lines[i]),
    ));
    let out = join_lines(&cleaned);
    string_from_chars(&out)
}

/// The first position at or after `i` that holds neither a carriage return nor a
/// line feed.
pub open spec fn breaks_end(s: Seq<char>, i: int) -> int
    decreases s.len() - i,
{
    if 0 <= i < s.len() && (s[i] == '\r' || s[i] == '\n') {
        breaks_end(s, i + 1)
    } else {
        i
    }
}

/// A line without one level of indentation: without its first four characters when
/// these are spaces.
pub open spec fn unindent_line(line: Seq<char>) -> Seq<char> {
    if line.len() >= 4 && line[0] == ' ' && line[1] == ' ' && line[2] == ' ' && line[3] == ' ' {
        line.skip(4)
    } else {
        line
    }
}

/// A body without its leading line breaks and without one level of indentation.
pub open spec fn unindented_body(body: Seq<char>) -> Seq<char> {
    let lines = lines_of(body.skip(breaks_end(body, 0)));
    joined(Seq::new(lines.len(), |i: int| unindent_line(lines[i])))
}

fn unindent_one_line(line: &Vec<char>) -> (out: Vec<char>)
    ensures
        out@ == unindent_line(line@),
{
    let n: usize = line.len();
    if n >= 4 && line[0] == ' ' && line[1] == ' ' && line[2] == ' ' && line[3] == ' ' {
        let out = slice_chars(line, 4, n);
        assert(line@.subrange(4, n as int) == line@.skip(4));
        out
    } else {
        let out = slice_chars(line, 0, n);
        assert(line@.subrange(0, n as int) == line@);
        out
    }
}

/// Removes the leading line breaks of a body and one level of indentation from each
/// of its lines.
pub fn clean_body_indentation(body: String) -> (out: String)
    ensures
        out@ == unindented_body(body@),
{
    let chars = str_chars(body.as_str());
    let n: usize = chars.len();
    let mut i: usize = 0;
    while i < n && (chars[i] == '\r' || chars[i] == '\n')
        invariant
            i <= n,
            n == chars@.len(),
            breaks_end(chars@, 0) == breaks_end(chars@, i as int),
        decreases n - i,
    {
        i = i + 1;
    }
    let rest = slice_chars(&chars, i, n);
    assert(chars@.subrange(i as int, n as int) == chars@.skip(i as int));
    let lines = split_lines(&rest);
    let ghost spec_lines = lines_of(rest@);
    let mut cleaned: Vec<Vec<char>> = Vec::new();
    let mut k: usize = 0;
    while k < lines.len()
        invariant
            k <= lines@.len(),
            lines@.len() == spec_lines.len(),
            forall|j: int| 0 <= j < lines@.len() ==> (#[trigger] lines@[j])@ == spec_lines[j],
            cleaned@.len() == k,
            forall|j: int| 0 <= j < k ==> (#[trigger] cleaned@[j])@ == unindent_line(spec_lines[j]),
        decreases lines.len() - k,
    {
        cleaned.push(unindent_one_line(&lines[k]));
        k = k + 1;
    }
    assert(line_views(cleaned@) =~= Seq::new(
        spec_lines.len(),
        |i: int| unindent_line(spec_lines[i]),
    ));
    let out = join_lines(&cleaned);
    string_from_chars(&out)
}

/// The position of the closing brace that brings the nesting depth to zero, scanning
/// the bytes from `pos` at the given depth; `None` when the text ends first.
pub open spec fn block_end(bytes: Seq<u8>, pos: int, depth: int) -> Option<int>
    decreases bytes.len() - pos,
{
    if pos < 0 || pos >= bytes.len() {
        None
    } else if bytes[pos] == 0x7b {
        block_end(bytes, pos + 1, depth + 1)
    } else if bytes[pos] == 0x7d {
        if depth <= 1 {
            Some(pos)
        } else {
            block_end(bytes, pos + 1, depth - 1)
        }
    } else {
        block_end(bytes, pos + 1, depth)
    }
}

/// Cuts the bytes `from..to` out of a text, where `to` holds a byte that begins a
/// character.
fn cut(content: &str, from: usize, to: usize) -> (out: String)
    requires
        from <= to < content.spec_bytes().len(),
        is_char_boundary(content.spec_bytes(), from as int),
        !is_continuation_byte(content.spec_bytes()[to as int]),
    ensures
        encode_utf8(out@) == content.spec_bytes().subrange(from as int, to as int),
{
    let (_, rest) = content.split_at(from);
    proof {
        encode_utf8_valid_utf8(rest@);
        is_char_boundary_iff_not_is_continuation_byte(rest.spec_bytes(), to - from);
    }
    let (block, _) = rest.split_at(to - from);
    proof {
        assert(block.spec_bytes() =~= content.spec_bytes().subrange(from as int, to as int));
    }
    block.to_owned()
}

/// The text between the byte offset `start_index`, which follows an opening brace,
/// and the closing brace that matches it; `None` when no closing brace matches.
pub fn extract_balanced_block(content: &str, start_index: usize) -> (block: Option<String>)
    requires
        start_index <= content.spec_bytes().len(),
        is_char_boundary(content.spec_bytes(), start_index as int),
    ensures
        block is Some <==> block_end(content.spec_bytes(), start_index as int, 1) is Some,
        block matches Some(b) ==> encode_utf8(b@) == content.spec_bytes().subrange(
            start_index as int,
            block_end(content.spec_bytes(), start_index as int, 1)->Some_0,
        ),
{
    let bytes = content.as_bytes();
    let n: usize = bytes.len();
    let mut depth: u128 = 1;
    let mut i: usize = start_index;
    while i < n
        invariant
            start_index <= i <= n,
            n == bytes@.len(),
            bytes@ == content.spec_bytes(),
            is_char_boundary(content.spec_bytes(), start_index as int),
            1 <= depth <= 1 + (i - start_index),
            block_end(bytes@, start_index as int, 1) == block_end(bytes@, i as int, depth as int),
        decreases n - i,
    {
        if bytes[i] == 0x7b {
            depth = depth + 1;
        } else if bytes[i] == 0x7d {
            if depth == 1 {
                return Some(cut(content, start_index, i));
            }
            depth = depth - 1;
        }
        i = i + 1;
    }
    None
}

/// The position of the first opening brace outside parentheses, scanning the bytes
/// from `pos` at the given depth of parentheses; `None` when there is none. A closing
/// parenthesis without an opening one is ignored.
pub open spec fn header_end(bytes: Seq<u8>, pos: int, depth: int) -> Option<int>
    decreases bytes.len() - pos,
{
    if pos < 0 || pos >= bytes.len() {
        None
    } else if bytes[pos] == 0x28 {
        header_end(bytes, pos + 1, depth + 1)
    } else if bytes[pos] == 0x29 {
        header_end(
            bytes,
            pos + 1,
            if depth > 0 {
                depth - 1
            } else {
                depth
            },
        )
    } else if bytes[pos] == 0x7b && depth <= 0 {
        Some(pos)
    } else {
        header_end(bytes, pos + 1, depth)
    }
}

/// Splits a declaration at the opening brace of its body: returns the header, which
/// is the text from the byte offset `start_index` up to the first opening brace
/// outside parentheses, and the byte offset that follows that brace. Without such a
/// brace the header is all the text from `start_index` on and the offset is zero.
pub fn scan_header(content: &str, start_index: usize) -> (r: (String, usize))
    requires
        start_index <= content.spec_bytes().len(),
        is_char_boundary(content.spec_bytes(), start_index as int),
    ensures
        encode_utf8(r.0@) == content.spec_bytes().subrange(
            start_index as int,
            match header_end(content.spec_bytes(), start_index as int, 0) {
                Some(e) => e,
                None => content.spec_bytes().len() as int,
            },
        ),
        r.1 == match header_end(content.spec_bytes(), start_index as int, 0) {
            Some(e) => e + 1,
            None => 0,
        },
{
    let bytes = content.as_bytes();
    let n: usize = bytes.len();
    let mut depth: usize = 0;
    let mut i: usize = start_index;
    while i < n
        invariant
            start_index <= i <= n,
            n == bytes@.len(),
            bytes@ == content.spec_bytes(),
            is_char_boundary(content.spec_bytes(), start_index as int),
            depth <= i - start_index,
            header_end(bytes@, start_index as int, 0) == header_end(
                bytes@,
                i as int,
                depth as int,
            ),
        decreases n - i,
    {
        if bytes[i] == 0x28 {
            depth = depth + 1;
        } else if bytes[i] == 0x29 {
            if depth > 0 {
                depth = depth - 1;
            }
        } else if bytes[i] == 0x7b && depth == 0 {
            return (cut(content, start_index, i), i + 1);
        }
        i = i + 1;
    }
    let (_, rest) = content.split_at(start_index);
    (rest.to_owned(), 0)
}

} // verus!
