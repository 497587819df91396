//! Source paths as they appear in debug information: `/`-separated text.

use vstd::prelude::*;
use vstd::slice::slice_subrange;
use crate::text::{chars_of, string_of};

verus! {

/// Index of the last `/` in `s`, or -1 when there is none.
pub open spec fn last_slash(s: Seq<char>) -> int
    decreases s.len(),
{
    if s.len() == 0 {
        -1
    } else if s.last() == '/' {
        s.len() - 1
    } else {
        last_slash(s.drop_last())
    }
}

/// Whether a path segment is skipped when looking for the final name: the
/// empty segment (doubled or trailing `/`) and `.`.
pub open spec fn is_skipped_segment(seg: Seq<char>) -> bool {
    seg.len() == 0 || (seg.len() == 1 && seg[0] == '.')
}

/// Whether a path segment is `..`.
pub open spec fn is_parent_segment(seg: Seq<char>) -> bool {
    seg.len() == 2 && seg[0] == '.' && seg[1] == '.'
}

/// The final name of a path: its last segment that is neither empty nor `.`.
/// There is none when no such segment exists (`""`, `"/"`, `"."`) or when
/// that segment is `..`.
pub open spec fn basename(path: Seq<char>) -> Option<Seq<char>>
    decreases path.len(),
{
    let start = last_slash(path) + 1;
    let seg = path.subrange(start, path.len() as int);
    if is_skipped_segment(seg) {
        if 0 < start <= path.len() {
            basename(path.subrange(0, start - 1))
        } else {
            None
        }
    } else if is_parent_segment(seg) {
        None
    } else {
        Some(seg)
    }
}

/// What follows the last `/` or `\` of a path; the whole path when it holds
/// neither.
pub open spec fn source_name(path: Seq<char>) -> Seq<char>
    decreases path.len(),
{
    if path.len() == 0 {
        path
    } else if path.last() == '/' || path.last() == '\\' {
        Seq::empty()
    } else {
        source_name(path.drop_last()).push(path.last())
    }
}

/// `s` without its trailing `/` characters.
pub open spec fn trim_trailing_slashes(s: Seq<char>) -> Seq<char>
    decreases s.len(),
{
    if s.len() > 0 && s.last() == '/' {
        trim_trailing_slashes(s.drop_last())
    } else {
        s
    }
}

/// A file's path from the directory and name that a line program records:
/// the name alone when the directory is missing or empty, else the directory
/// without trailing `/`, a `/`, and the name. Without a name there is no path.
pub open spec fn joined_path(name: Option<Seq<char>>, dir: Option<Seq<char>>) -> Option<Seq<char>> {
    match name {
        None => None,
        Some(n) => match dir {
            Some(d) if d.len() > 0 => Some(trim_trailing_slashes(d) + seq!['/'] + n),
            _ => Some(n),
        },
    }
}

/// `last_slash` lies within `s` or is -1, holds a `/` where it lies within
/// `s`, and no `/` comes after it.
pub proof fn lemma_last_slash_bounds(s: Seq<char>)
    ensures
        -1 <= last_slash(s) < s.len(),
        last_slash(s) >= 0 ==> s[last_slash(s)] == '/',
        forall|k: int| last_slash(s) < k < s.len() ==> s[k] != '/',
    decreases s.len(),
{
    if s.len() > 0 && s.last() != '/' {
        let head = s.drop_last();
        lemma_last_slash_bounds(head);
        assert forall|k: int| last_slash(s) < k < s.len() implies s[k] != '/' by {
            if k < head.len() {
                assert(head[k] == s[k]);
            }
        }
    }
}

/// `last_slash` is the one index that holds a `/` with none after it.
pub proof fn lemma_last_slash_is(s: Seq<char>, i: int)
    requires
        -1 <= i < s.len(),
        i >= 0 ==> s[i] == '/',
        forall|k: int| i < k < s.len() ==> s[k] != '/',
    ensures
        last_slash(s) == i,
{
    lemma_last_slash_bounds(s);
}

/// Where the final name of `path` lies: `path[start..end]`.
pub fn basename_span(path: &[char]) -> (span: Option<(usize, usize)>)
    ensures
        match span {
            Some((start, end)) => {
                &&& start < end <= path.len()
                &&& basename(path@) == Some(path@.subrange(start as int, end as int))
            },
            None => basename(path@) is None,
        },
{
    let mut end: usize = path.len();
    proof {
        assert(path@.take(end as int) == path@);
    }
    loop
        invariant
            end <= path.len(),
            basename(path@) == basename(path@.take(end as int)),
        decreases end,
    {
        let ghost head = path@.take(end as int);
        let mut start: usize = end;
        while start > 0 && path[start - 1] != '/'
            invariant
                start <= end <= path.len(),
                forall|k: int| start <= k < end ==> path@[k] != '/',
            decreases start,
        {
            start -= 1;
        }
        proof {
            lemma_last_slash_is(head, start as int - 1);
            assert(head.subrange(start as int, head.len() as int) == path@.subrange(
                start as int,
                end as int,
            ));
        }
        let seg_len: usize = end - start;
        let dot = seg_len == 1 && path[start] == '.';
        let dotdot = seg_len == 2 && path[start] == '.' && path[start + 1] == '.';
        if seg_len == 0 || dot {
            if start == 0 {
                return None;
            }
            proof {
                assert(head.subrange(0, start as int - 1) == path@.take(start as int - 1));
            }
            end = start - 1;
        } else if dotdot {
            return None;
        } else {
            return Some((start, end));
        }
    }
}

/// The final name of `path`, if it has one.
pub fn basename_of(path: &str) -> (name: Option<String>)
    ensures
        match name {
            Some(n) => basename(path@) == Some(n@),
            None => basename(path@) is None,
        },
{
    let chars = chars_of(path);
    match basename_span(chars.as_slice()) {
        Some((start, end)) => {
            let name = string_of(slice_subrange(chars.as_slice(), start, end));
            Some(name)
        },
        None => None,
    }
}

/// What follows the last `/` or `\` of `path`.
pub fn source_name_of(path: &str) -> (name: String)
    ensures
        name@ == source_name(path@),
{
    let chars = chars_of(path);
    let mut name = String::new();
    let mut i: usize = 0;
    while i < chars.len()
        invariant
            i <= chars.len(),
            name@ == source_name(chars@.take(i as int)),
        decreases chars.len() - i,
    {
        let c = chars[i];
        proof {
            assert(chars@.take(i as int + 1).drop_last() == chars@.take(i as int));
        }
        if c == '/' || c == '\\' {
            name = String::new();
        } else {
            name.push(c);
        }
        i += 1;
    }
    proof {
        assert(chars@.take(chars.len() as int) == chars@);
    }
    name
}

/// The path of a file from the directory and name recorded for it.
pub fn line_file_path(name: Option<&str>, dir: Option<&str>) -> (path: Option<String>)
    ensures
        match path {
            Some(p) => joined_path(option_view(name), option_view(dir)) == Some(p@),
            None => joined_path(option_view(name), option_view(dir)) is None,
        },
{
    let name = match name {
        Some(n) => n,
        None => {
            return None;
        },
    };
    let dir = match dir {
        Some(d) => chars_of(d),
        None => {
            return Some(name.to_owned());
        },
    };
    if dir.len() == 0 {
        return Some(name.to_owned());
    }
    let mut end: usize = dir.len();
    proof {
        assert(dir@.take(end as int) == dir@);
    }
    while end > 0 && dir[end - 1] == '/'
        invariant
            end <= dir.len(),
            trim_trailing_slashes(dir@) == trim_trailing_slashes(dir@.take(end as int)),
        decreases end,
    {
        proof {
            assert(dir@.take(end as int).drop_last() == dir@.take(end as int - 1));
        }
        end -= 1;
    }
    let mut path = string_of(slice_subrange(dir.as_slice(), 0, end));
    proof {
        assert(dir@.subrange(0, end as int) == dir@.take(end as int));
    }
    path.push('/');
    let tail = chars_of(name);
    let mut i: usize = 0;
    while i < tail.len()
        invariant
            i <= tail.len(),
            path@ == trim_trailing_slashes(dir@) + seq!['/'] + tail@.take(i as int),
        decreases tail.len() - i,
    {
        path.push(tail[i]);
        i += 1;
    }
    proof {
        assert(tail@.take(tail.len() as int) == tail@);
    }
    Some(path)
}

/// The characters of an optional string.
pub open spec fn option_view(s: Option<&str>) -> Option<Seq<char>> {
    match s {
        Some(s) => Some(s@),
        None => None,
    }
}

} // verus!
