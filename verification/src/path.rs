//! The name of a file within its path, and the stem of that name.
//!
//! Paths are read as on Unix: `/` separates components. Separators and `.`
//! components at the end of a path do not count, so that `a/b/` and `a/b/.`
//! name the same file as `a/b`.

use vstd::prelude::*;
use vstd::string::*;

use crate::text::chars_of;

verus! {

/// The index of the last `c` in `s`, or -1 where `s` has none.
pub open spec fn last_index_of(s: Seq<char>, c: char) -> int
    decreases s.len(),
{
    if s.len() == 0 {
        -1
    } else if s.last() == c {
        s.len() - 1
    } else {
        last_index_of(s.drop_last(), c)
    }
}

/// What `last_index_of` finds is an index of `c`, and no `c` comes after it.
pub proof fn lemma_last_index_of(s: Seq<char>, c: char)
    ensures
        -1 <= last_index_of(s, c) < s.len(),
        last_index_of(s, c) >= 0 ==> s[last_index_of(s, c)] == c,
        forall|i: int| last_index_of(s, c) < i < s.len() ==> s[i] != c,
    decreases s.len(),
{
    if s.len() > 0 && s.last() != c {
        lemma_last_index_of(s.drop_last(), c);
        assert forall|i: int| last_index_of(s, c) < i < s.len() implies s[i] != c by {
            if i < s.len() - 1 {
                assert(s.drop_last()[i] == s[i]);
            }
        }
    }
}

/// Whether `path` ends in something that does not count: a separator, or a
/// `.` component behind one.
pub open spec fn ends_idle(path: Seq<char>) -> bool {
    path.len() > 0 && (path.last() == '/' || (path.len() >= 2 && path.last() == '.' && path[path.len()
        - 2] == '/'))
}

/// `path` without the separators and `.` components at its end.
pub open spec fn trim_path(path: Seq<char>) -> Seq<char>
    decreases path.len(),
{
    if ends_idle(path) {
        trim_path(path.drop_last())
    } else {
        path
    }
}

/// The last component of `path`, if it names a file: a path that is empty or
/// made of separators only has none, and `.` and `..` name no file.
pub open spec fn file_name(path: Seq<char>) -> Option<Seq<char>> {
    let trimmed = trim_path(path);
    let name = trimmed.skip(last_index_of(trimmed, '/') + 1);
    if name.len() == 0 || name == seq!['.'] || name == seq!['.', '.'] {
        None
    } else {
        Some(name)
    }
}

/// A file name without its extension: what stands before the last `.`,
/// unless the name has no `.` or only begins with one.
pub open spec fn stem_of_name(name: Seq<char>) -> Seq<char> {
    let dot = last_index_of(name, '.');
    if dot <= 0 {
        name
    } else {
        name.take(dot)
    }
}

/// The stem of the file that `path` names, if it names one.
pub open spec fn file_stem(path: Seq<char>) -> Option<Seq<char>> {
    match file_name(path) {
        Some(name) => Some(stem_of_name(name)),
        None => None,
    }
}

/// The last `c` among the characters from `from` up to `to`, counted from
/// `from`.
fn last_index(chars: &Vec<char>, from: usize, to: usize, c: char) -> (at: Option<usize>)
    requires
        from <= to <= chars@.len(),
    ensures
        match at {
            Some(k) => k == last_index_of(chars@.subrange(from as int, to as int), c) && from + k
                < to,
            None => last_index_of(chars@.subrange(from as int, to as int), c) == -1,
        },
{
    let mut i: usize = to;
    while i > from
        invariant
            from <= i <= to <= chars@.len(),
            last_index_of(chars@.subrange(from as int, to as int), c) == last_index_of(
                chars@.subrange(from as int, i as int),
                c,
            ),
        decreases i,
    {
        if chars[i - 1] == c {
            return Some(i - 1 - from);
        }
        assert(chars@.subrange(from as int, i as int).drop_last() =~= chars@.subrange(
            from as int,
            i - 1,
        ));
        i = i - 1;
    }
    None
}

/// How many characters of `chars` are left once what ends it idly is dropped.
fn trimmed_len(chars: &Vec<char>) -> (end: usize)
    ensures
        end <= chars@.len(),
        chars@.take(end as int) == trim_path(chars@),
{
    let mut end: usize = chars.len();
    let mut idle: bool = true;
    assert(chars@.take(end as int) =~= chars@);
    while idle
        invariant
            end <= chars@.len(),
            trim_path(chars@.take(end as int)) == trim_path(chars@),
            !idle ==> !ends_idle(chars@.take(end as int)),
        decreases end, idle as int,
    {
        if end > 0 && (chars[end - 1] == '/' || (end >= 2 && chars[end - 1] == '.' && chars[end
            - 2] == '/')) {
            assert(chars@.take(end as int).drop_last() =~= chars@.take(end - 1));
            end = end - 1;
        } else {
            idle = false;
        }
    }
    end
}

/// The stem of the file that `path` names: its last component without the
/// extension. `None` where the path names no file.
pub fn file_stem_of(path: &str) -> (stem: Option<String>)
    ensures
        stem.deep_view() == file_stem(path@),
{
    let chars = chars_of(path);
    let end = trimmed_len(&chars);
    let ghost trimmed = chars@.take(end as int);
    assert(trimmed.subrange(0, end as int) =~= trimmed);
    assert(chars@.subrange(0, end as int) =~= trimmed);
    let start: usize = match last_index(&chars, 0, end, '/') {
        Some(i) => i + 1,
        None => 0,
    };
    let ghost name = trimmed.skip(start as int);
    assert(name =~= chars@.subrange(start as int, end as int));
    let len: usize = end - start;
    if len == 0 {
        return None;
    }
    if chars[start] == '.' && (len == 1 || (len == 2 && chars[start + 1] == '.')) {
        assert(name =~= seq!['.'] || name =~= seq!['.', '.']);
        return None;
    }
    assert(name != seq!['.'] && name != seq!['.', '.']) by {
        if name == seq!['.'] {
            assert(name.len() == 1 && name[0] == '.');
        }
        if name == seq!['.', '.'] {
            assert(name.len() == 2 && name[0] == '.' && name[1] == '.');
        }
    }
    let stop: usize = match last_index(&chars, start, end, '.') {
        Some(k) => if k == 0 {
            end
        } else {
            start + k
        },
        None => end,
    };
    assert(path@.subrange(start as int, stop as int) =~= stem_of_name(name));
    Some(String::from_str(path.substring_char(start, stop)))
}

} // verus!
