//! Where session files are looked for: the list of directories and the
//! pattern that picks the session files of one directory.

use vstd::prelude::*;
use vstd::string::*;

use crate::path::{last_index_of, lemma_last_index_of};
use crate::text::chars_of;

verus! {

/// What follows a directory in the pattern that matches its session files.
pub const SESSION_FILES: &'static str = "/*.desktop";

/// The directories that a list names: the pieces between its colons, in
/// order. A list without a colon names one directory, and two colons in a row
/// have an empty piece between them.
pub open spec fn dir_list(list: Seq<char>) -> Seq<Seq<char>>
    decreases list.len(),
{
    let colon = last_index_of(list, ':');
    if 0 <= colon < list.len() {
        dir_list(list.take(colon)).push(list.skip(colon + 1))
    } else {
        seq![list]
    }
}

/// One more character that is no colon lengthens the last directory of the
/// list.
proof fn lemma_dir_list_grows(list: Seq<char>, c: char)
    requires
        c != ':',
    ensures
        dir_list(list.push(c)).len() == dir_list(list).len() > 0,
        dir_list(list.push(c)) == dir_list(list).drop_last().push(dir_list(list).last().push(c)),
{
    let longer = list.push(c);
    let colon = last_index_of(list, ':');
    lemma_last_index_of(list, ':');
    assert(longer.drop_last() =~= list);
    assert(last_index_of(longer, ':') == colon);
    if 0 <= colon {
        assert(longer.take(colon) =~= list.take(colon));
        assert(longer.skip(colon + 1) =~= list.skip(colon + 1).push(c));
        assert(dir_list(list).drop_last() =~= dir_list(list.take(colon)));
    } else {
        assert(dir_list(list).drop_last().push(dir_list(list).last().push(c)) =~= seq![longer]);
    }
}

/// A colon closes the last directory of the list and opens an empty one.
proof fn lemma_dir_list_colon(list: Seq<char>)
    ensures
        dir_list(list.push(':')) == dir_list(list).push(Seq::<char>::empty()),
{
    let longer = list.push(':');
    assert(longer.take(list.len() as int) =~= list);
    assert(longer.skip(list.len() as int + 1) =~= Seq::<char>::empty());
}

/// Splits a colon-separated list of directories into the directories, in the
/// order of the list.
pub fn split_dirs(list: &str) -> (dirs: Vec<String>)
    ensures
        dirs.deep_view() == dir_list(list@),
{
    let chars = chars_of(list);
    let mut dirs: Vec<String> = Vec::new();
    let mut from: usize = 0;
    let mut i: usize = 0;
    assert(dir_list(chars@.take(0)) =~= dirs.deep_view().push(chars@.subrange(0, 0)));
    while i < chars.len()
        invariant
            from <= i <= chars@.len(),
            chars@ == list@,
            dir_list(chars@.take(i as int)) == dirs.deep_view().push(
                chars@.subrange(from as int, i as int),
            ),
        decreases chars@.len() - i,
    {
        let ghost before = dirs.deep_view();
        let ghost piece = chars@.subrange(from as int, i as int);
        assert(chars@.take(i + 1) =~= chars@.take(i as int).push(chars@[i as int]));
        if chars[i] == ':' {
            proof {
                lemma_dir_list_colon(chars@.take(i as int));
            }
            dirs.push(String::from_str(list.substring_char(from, i)));
            from = i + 1;
            assert(dirs.deep_view() =~= before.push(piece));
            assert(chars@.subrange(from as int, i + 1) =~= Seq::<char>::empty());
        } else {
            proof {
                lemma_dir_list_grows(chars@.take(i as int), chars@[i as int]);
                assert(before.push(piece).drop_last() =~= before);
                assert(chars@.subrange(from as int, i + 1) =~= piece.push(chars@[i as int]));
            }
        }
        i = i + 1;
    }
    let ghost before = dirs.deep_view();
    assert(chars@.take(i as int) =~= chars@);
    dirs.push(String::from_str(list.substring_char(from, i)));
    assert(dirs.deep_view() =~= before.push(chars@.subrange(from as int, i as int)));
    dirs
}

/// The pattern that matches the session files of the directory `dir`: the
/// files directly in it whose names end in `.desktop`.
pub fn session_pattern(dir: &str) -> (pattern: String)
    ensures
        pattern@ == dir@ + SESSION_FILES@,
{
    String::from_str(dir).concat(SESSION_FILES)
}

} // verus!
