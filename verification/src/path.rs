//! Paths as text: the root, the segments between `/`, the parent and the file
//! name of a path, and joining two paths. Nothing here looks at a filesystem.
//!
//! A path is split as a POSIX path is: a leading `/` is the root, runs of `/`
//! count as one separator, and a `.` segment stands for nothing unless it
//! opens a relative path.

use vstd::prelude::*;
use vstd::string::*;

verus! {

/// A path is absolute when it starts at the root.
pub open spec fn is_absolute(path: Seq<char>) -> bool {
    path.len() > 0 && path[0] == '/'
}

/// A relative path whose first segment is `.`.
pub open spec fn opens_with_dot(path: Seq<char>) -> bool {
    path.len() > 0 && path[0] == '.' && (path.len() == 1 || path[1] == '/')
}

/// How many characters stand before the segments of a path: one for the root
/// or for the `.` that opens it, none otherwise.
pub open spec fn head_len(path: Seq<char>) -> int {
    if is_absolute(path) || opens_with_dot(path) {
        1
    } else {
        0
    }
}

/// Where the segment that ends at `end` starts: the least position at or after
/// `floor` from which no separator stands before `end`.
pub open spec fn segment_start(path: Seq<char>, floor: int, end: int) -> int
    decreases end - floor,
{
    if floor < end <= path.len() && path[end - 1] != '/' {
        segment_start(path, floor, end - 1)
    } else {
        end
    }
}

/// The end of `path[..end]` once the empty segments and the `.` segments that
/// close it are taken off, each with the separator before it. Nothing before
/// `floor` is taken off.
pub open spec fn trimmed_end(path: Seq<char>, floor: int, end: int) -> int
    decreases end - floor,
{
    if floor < end <= path.len() {
        let start = segment_start(path, floor, end);
        if start == end {
            trimmed_end(path, floor, end - 1)
        } else if start == end - 1 && path[start] == '.' {
            trimmed_end(
                path,
                floor,
                if start > floor {
                    start - 1
                } else {
                    start
                },
            )
        } else {
            end
        }
    } else {
        end
    }
}

/// The segment `..`, which names the directory above.
pub open spec fn is_dot_dot(segment: Seq<char>) -> bool {
    segment.len() == 2 && segment[0] == '.' && segment[1] == '.'
}

/// The end of the last segment of a path that is neither empty nor `.`, or
/// `head_len(path)` when it has none.
pub open spec fn last_segment_end(path: Seq<char>) -> int {
    trimmed_end(path, head_len(path), path.len() as int)
}

/// The final segment of a path, when it names a file or a directory: none for
/// a path that has no segment, or that ends in `..`.
pub open spec fn file_name_of(path: Seq<char>) -> Option<Seq<char>> {
    let floor = head_len(path);
    let end = last_segment_end(path);
    let segment = path.subrange(segment_start(path, floor, end), end);
    if end <= floor || is_dot_dot(segment) {
        None
    } else {
        Some(segment)
    }
}

/// The path without its final segment: none for the root and for the empty
/// path, the empty path for a relative path of one segment.
pub open spec fn parent_of(path: Seq<char>) -> Option<Seq<char>> {
    let floor = head_len(path);
    let end = last_segment_end(path);
    if end <= floor {
        if opens_with_dot(path) {
            Some(Seq::<char>::empty())
        } else {
            None
        }
    } else {
        let start = segment_start(path, floor, end);
        let rest = if start > floor {
            start - 1
        } else {
            start
        };
        Some(path.subrange(0, trimmed_end(path, floor, rest)))
    }
}

/// `path` as seen from `base`: an absolute `path` stands for itself, a
/// relative one is put behind `base`, after a separator where `base` does not
/// end in one.
pub open spec fn joined(base: Seq<char>, path: Seq<char>) -> Seq<char> {
    if is_absolute(path) {
        path
    } else if base.len() > 0 && base.last() != '/' {
        base.push('/') + path
    } else {
        base + path
    }
}

/// A name that is one segment and names a file or a directory: not empty,
/// without a separator, and neither `.` nor `..`.
pub open spec fn is_plain_name(name: Seq<char>) -> bool {
    &&& name.len() > 0
    &&& forall|i: int| 0 <= i < name.len() ==> name[i] != '/'
    &&& !(name.len() == 1 && name[0] == '.')
    &&& !is_dot_dot(name)
}

/// A segment start lies between the floor and the end it was asked for.
pub proof fn lemma_segment_start_bounds(path: Seq<char>, floor: int, end: int)
    requires
        floor <= end,
    ensures
        floor <= segment_start(path, floor, end) <= end,
    decreases end - floor,
{
    if floor < end <= path.len() && path[end - 1] != '/' {
        lemma_segment_start_bounds(path, floor, end - 1);
    }
}

/// Trimming moves the end back, never before the floor.
pub proof fn lemma_trimmed_end_bounds(path: Seq<char>, floor: int, end: int)
    requires
        floor <= end,
    ensures
        floor <= trimmed_end(path, floor, end) <= end,
    decreases end - floor,
{
    if floor < end <= path.len() {
        let start = segment_start(path, floor, end);
        lemma_segment_start_bounds(path, floor, end);
        if start == end {
            lemma_trimmed_end_bounds(path, floor, end - 1);
        } else if start == end - 1 && path[start] == '.' {
            lemma_trimmed_end_bounds(
                path,
                floor,
                if start > floor {
                    start - 1
                } else {
                    start
                },
            );
        }
    }
}

/// No separator stands in a segment.
pub proof fn lemma_segment_has_no_separator(path: Seq<char>, floor: int, end: int)
    requires
        floor <= end <= path.len(),
    ensures
        forall|i: int| segment_start(path, floor, end) <= i < end ==> path[i] != '/',
    decreases end - floor,
{
    if floor < end && path[end - 1] != '/' {
        lemma_segment_has_no_separator(path, floor, end - 1);
    }
}

/// Where trimming stops behind the floor, it stops at the end of a segment
/// that is neither empty nor `.`.
pub proof fn lemma_trimmed_end_closes_a_name(path: Seq<char>, floor: int, end: int)
    requires
        floor <= end <= path.len(),
    ensures
        trimmed_end(path, floor, end) > floor ==> {
            let stop = trimmed_end(path, floor, end);
            let start = segment_start(path, floor, stop);
            start < stop && !(start == stop - 1 && path[start] == '.')
        },
    decreases end - floor,
{
    if floor < end {
        let start = segment_start(path, floor, end);
        lemma_segment_start_bounds(path, floor, end);
        if start == end {
            lemma_trimmed_end_closes_a_name(path, floor, end - 1);
        } else if start == end - 1 && path[start] == '.' {
            lemma_trimmed_end_closes_a_name(
                path,
                floor,
                if start > floor {
                    start - 1
                } else {
                    start
                },
            );
        }
    }
}

/// The file name of a path is a plain name: one segment, and neither `.`
/// nor `..`.
pub proof fn lemma_file_name_is_plain(path: Seq<char>)
    ensures
        file_name_of(path) matches Some(name) ==> is_plain_name(name),
{
    let floor = head_len(path);
    let end = last_segment_end(path);
    lemma_trimmed_end_bounds(path, floor, path.len() as int);
    lemma_trimmed_end_closes_a_name(path, floor, path.len() as int);
    if end > floor {
        lemma_segment_start_bounds(path, floor, end);
        lemma_segment_has_no_separator(path, floor, end);
    }
}

/// The parent of a path is a beginning of the path, and shorter than the
/// path: going from parent to parent comes to an end.
pub proof fn lemma_parent_is_a_shorter_beginning(path: Seq<char>)
    ensures
        parent_of(path) matches Some(dir) ==> dir.len() < path.len() && dir == path.subrange(
            0,
            dir.len() as int,
        ),
{
    let floor = head_len(path);
    let end = last_segment_end(path);
    lemma_trimmed_end_bounds(path, floor, path.len() as int);
    if end > floor {
        let start = segment_start(path, floor, end);
        lemma_segment_start_bounds(path, floor, end);
        lemma_trimmed_end_closes_a_name(path, floor, path.len() as int);
        let rest = if start > floor {
            start - 1
        } else {
            start
        };
        lemma_trimmed_end_bounds(path, floor, rest);
    }
}

/// A run of characters without a separator, with a separator or the floor
/// before it, is one segment.
pub proof fn lemma_segment_start_of_run(path: Seq<char>, floor: int, end: int, run: int)
    requires
        0 <= run,
        floor <= end - run,
        end <= path.len(),
        forall|i: int| end - run <= i < end ==> path[i] != '/',
        end - run == floor || path[end - run - 1] == '/',
    ensures
        segment_start(path, floor, end) == end - run,
    decreases run,
{
    if run > 0 {
        lemma_segment_start_of_run(path, floor, end - 1, run - 1);
    }
}

/// A plain name that is joined to a path is the file name of the whole, and
/// the whole has a parent.
pub proof fn lemma_file_name_of_joined(base: Seq<char>, name: Seq<char>)
    requires
        is_plain_name(name),
    ensures
        file_name_of(joined(base, name)) == Some(name),
        parent_of(joined(base, name)) is Some,
{
    let path = joined(base, name);
    let floor = head_len(path);
    let end = path.len() as int;
    let run = name.len() as int;
    assert(forall|i: int| end - run <= i < end ==> path[i] == name[i - (end - run)]);
    lemma_segment_start_of_run(path, floor, end, run);
    assert(path.subrange(end - run, end) =~= name);
}

/// The characters of a text, one by one.
fn chars_of(text: &str) -> (chars: Vec<char>)
    ensures
        chars@ == text@,
{
    let count: usize = text.unicode_len();
    let mut chars: Vec<char> = Vec::new();
    let mut i: usize = 0;
    while i < count
        invariant
            i <= count,
            count == text@.len(),
            chars@ == text@.subrange(0, i as int),
        decreases count - i,
    {
        chars.push(text.get_char(i));
        i += 1;
        assert(chars@ =~= text@.subrange(0, i as int));
    }
    assert(text@.subrange(0, count as int) =~= text@);
    chars
}

fn head_of(chars: &Vec<char>) -> (head: usize)
    ensures
        head == head_len(chars@),
{
    let count: usize = chars.len();
    if count == 0 {
        0
    } else if chars[0] == '/' {
        1
    } else if chars[0] == '.' && (count == 1 || chars[1] == '/') {
        1
    } else {
        0
    }
}

fn find_segment_start(chars: &Vec<char>, floor: usize, end: usize) -> (start: usize)
    requires
        floor <= end <= chars.len(),
    ensures
        start == segment_start(chars@, floor as int, end as int),
        floor <= start <= end,
{
    let mut start: usize = end;
    while start > floor && chars[start - 1] != '/'
        invariant
            floor <= start <= end <= chars.len(),
            segment_start(chars@, floor as int, end as int) == segment_start(
                chars@,
                floor as int,
                start as int,
            ),
        decreases start,
    {
        start -= 1;
    }
    start
}

fn trim_end(chars: &Vec<char>, floor: usize, end: usize) -> (trimmed: usize)
    requires
        floor <= end <= chars.len(),
    ensures
        trimmed == trimmed_end(chars@, floor as int, end as int),
        floor <= trimmed <= end,
{
    let mut trimmed: usize = end;
    let mut done: bool = false;
    while !done
        invariant
            floor <= trimmed <= end <= chars.len(),
            trimmed_end(chars@, floor as int, end as int) == trimmed_end(
                chars@,
                floor as int,
                trimmed as int,
            ),
            done ==> trimmed_end(chars@, floor as int, trimmed as int) == trimmed,
        decreases trimmed + (if done { 0int } else { 1int }),
    {
        if trimmed <= floor {
            done = true;
        } else {
            let start: usize = find_segment_start(chars, floor, trimmed);
            if start == trimmed {
                trimmed -= 1;
            } else if start == trimmed - 1 && chars[start] == '.' {
                trimmed = if start > floor {
                    start - 1
                } else {
                    start
                };
            } else {
                done = true;
            }
        }
    }
    trimmed
}

/// Whether a path is relative: whether it does not start at the root.
pub fn is_relative(path: &str) -> (relative: bool)
    ensures
        relative == !is_absolute(path@),
{
    path.is_empty() || path.get_char(0) != '/'
}

/// The final segment of a path, when it names a file or a directory.
pub fn file_name(path: &str) -> (name: Option<String>)
    ensures
        name.deep_view() == file_name_of(path@),
{
    let chars: Vec<char> = chars_of(path);
    let floor: usize = head_of(&chars);
    let end: usize = trim_end(&chars, floor, chars.len());
    let start: usize = find_segment_start(&chars, floor, end);
    if end <= floor || (end - start == 2 && chars[start] == '.' && chars[start + 1] == '.') {
        None
    } else {
        Some(String::from_str(path.substring_char(start, end)))
    }
}

/// The path without its final segment.
pub fn parent(path: &str) -> (dir: Option<String>)
    ensures
        dir.deep_view() == parent_of(path@),
{
    let chars: Vec<char> = chars_of(path);
    let floor: usize = head_of(&chars);
    let end: usize = trim_end(&chars, floor, chars.len());
    if end <= floor {
        if chars.len() > 0 && chars[0] == '.' && (chars.len() == 1 || chars[1] == '/') {
            Some(String::new())
        } else {
            None
        }
    } else {
        let start: usize = find_segment_start(&chars, floor, end);
        let rest: usize = if start > floor {
            start - 1
        } else {
            start
        };
        let cut: usize = trim_end(&chars, floor, rest);
        Some(String::from_str(path.substring_char(0, cut)))
    }
}

/// `path` as seen from `base`.
pub fn join(base: &str, path: &str) -> (whole: String)
    ensures
        whole@ == joined(base@, path@),
{
    if !is_relative(path) {
        String::from_str(path)
    } else {
        let chars: Vec<char> = chars_of(base);
        let mut whole: String = String::from_str(base);
        if chars.len() > 0 && chars[chars.len() - 1] != '/' {
            whole.append("/");
            proof {
                reveal_strlit("/");
                assert("/"@ =~= seq!['/']);
                assert(whole@ =~= base@.push('/'));
            }
        }
        whole.append(path);
        whole
    }
}

} // verus!
