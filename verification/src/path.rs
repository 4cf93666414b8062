//! The name, stem and extension of a file, read off its path.
//!
//! A path is text whose components are separated by `/`. Empty components and
//! `.` components are passed over, as they name no file, so that `dir/a.tpl`,
//! `dir//a.tpl` and `dir/a.tpl/.` all end in the file name `a.tpl`. A path that
//! ends in `..`, or that holds no component that names a file, has no file name.

use vstd::prelude::*;
use crate::text::{chars_of, find_last, option_view, slice_of};

verus! {

/// `path` without the separators and the `.` components that it ends with.
pub open spec fn strip_trailing(path: Seq<char>) -> Seq<char>
    decreases path.len(),
{
    if path.len() > 0 && path.last() == '/' {
        strip_trailing(path.drop_last())
    } else if path.len() >= 2 && path.last() == '.' && path[path.len() - 2] == '/' {
        strip_trailing(path.take(path.len() - 2))
    } else {
        path
    }
}

/// What follows the last separator of `path`; all of it where it has none.
pub open spec fn after_last_separator(path: Seq<char>) -> Seq<char> {
    match path.index_of_last('/') {
        Some(i) => path.skip(i + 1),
        None => path,
    }
}

/// The final component of `path`, where that component names a file.
pub open spec fn file_name(path: Seq<char>) -> Option<Seq<char>> {
    let last = after_last_separator(strip_trailing(path));
    if last.len() == 0 || last == seq!['.'] || last == seq!['.', '.'] {
        None
    } else {
        Some(last)
    }
}

/// Where a file name divides into stem and extension: at its last `.`, unless
/// that is its first character or it has none.
pub open spec fn dividing_dot(name: Seq<char>) -> Option<int> {
    match name.index_of_last('.') {
        Some(i) => if i > 0 {
            Some(i)
        } else {
            None
        },
        None => None,
    }
}

/// The file name of `path` without its extension.
pub open spec fn file_stem(path: Seq<char>) -> Option<Seq<char>> {
    match file_name(path) {
        Some(name) => match dividing_dot(name) {
            Some(i) => Some(name.take(i)),
            None => Some(name),
        },
        None => None,
    }
}

/// What follows the last `.` in the file name of `path`.
pub open spec fn file_extension(path: Seq<char>) -> Option<Seq<char>> {
    match file_name(path) {
        Some(name) => match dividing_dot(name) {
            Some(i) => Some(name.skip(i + 1)),
            None => None,
        },
        None => None,
    }
}

/// A path with an extension has a stem, and the two, with a `.` between them,
/// are its file name.
pub proof fn lemma_stem_and_extension(path: Seq<char>)
    ensures
        file_extension(path) is Some ==> file_stem(path) is Some && file_name(path) == Some(
            file_stem(path)->0 + seq!['.'] + file_extension(path)->0,
        ),
        file_extension(path) is None ==> file_stem(path) == file_name(path),
        file_stem(path) matches Some(stem) ==> stem.len() > 0,
{
    match file_name(path) {
        Some(name) => {
            name.index_of_last_ensures('.');
            match dividing_dot(name) {
                Some(i) => {
                    assert(name =~= name.take(i) + seq!['.'] + name.skip(i + 1));
                },
                None => {},
            }
        },
        None => {},
    }
}

/// How many characters of the path are left when what it ends with is
/// stripped.
fn stripped_len(chars: &Vec<char>) -> (end: usize)
    ensures
        end <= chars.len(),
        chars@.take(end as int) == strip_trailing(chars@),
{
    let mut end: usize = chars.len();
    assert(chars@.take(end as int) =~= chars@);
    loop
        invariant
            end <= chars.len(),
            strip_trailing(chars@.take(end as int)) == strip_trailing(chars@),
        decreases end,
    {
        let ghost now = chars@.take(end as int);
        if end > 0 && chars[end - 1] == '/' {
            end -= 1;
            assert(now.drop_last() =~= chars@.take(end as int));
        } else if end >= 2 && chars[end - 1] == '.' && chars[end - 2] == '/' {
            end -= 2;
            assert(now.take(now.len() - 2) =~= chars@.take(end as int));
        } else {
            return end;
        }
    }
}

/// Where the file name stands in the path: its first position and the one
/// behind its last.
fn name_bounds(chars: &Vec<char>) -> (bounds: Option<(usize, usize)>)
    ensures
        match bounds {
            Some((from, to)) => from < to <= chars.len() && file_name(chars@) == Some(
                chars@.subrange(from as int, to as int),
            ),
            None => file_name(chars@) is None,
        },
{
    let end = stripped_len(chars);
    let ghost stripped = chars@.take(end as int);
    assert(chars@.subrange(0, end as int) =~= stripped);
    let from: usize = match find_last(chars, '/', 0, end) {
        Some(i) => i + 1,
        None => 0,
    };
    assert(chars@.subrange(from as int, end as int) =~= after_last_separator(stripped));
    let len = end - from;
    if len == 0 {
        return None;
    }
    if len == 1 && chars[from] == '.' {
        assert(chars@.subrange(from as int, end as int) =~= seq!['.']);
        return None;
    }
    if len == 2 && chars[from] == '.' && chars[from + 1] == '.' {
        assert(chars@.subrange(from as int, end as int) =~= seq!['.', '.']);
        return None;
    }
    proof {
        let last = chars@.subrange(from as int, end as int);
        if last == seq!['.'] {
            assert(last[0] == '.');
        }
        if last == seq!['.', '.'] {
            assert(last[0] == '.' && last[1] == '.');
        }
    }
    Some((from, end))
}

/// Where the file name divides: the first position of the name, that of its
/// dividing dot if it has one, and the position behind the name.
fn name_parts(chars: &Vec<char>) -> (parts: Option<(usize, Option<usize>, usize)>)
    ensures
        match parts {
            Some((from, dot, to)) => {
                &&& from < to <= chars.len()
                &&& file_name(chars@) == Some(chars@.subrange(from as int, to as int))
                &&& match dot {
                    Some(at) => from < at < to && dividing_dot(
                        chars@.subrange(from as int, to as int),
                    ) == Some(at - from),
                    None => dividing_dot(chars@.subrange(from as int, to as int)) is None,
                }
            },
            None => file_name(chars@) is None,
        },
{
    match name_bounds(chars) {
        Some((from, to)) => {
            match find_last(chars, '.', from, to) {
                Some(i) => if i > 0 {
                    Some((from, Some(from + i), to))
                } else {
                    Some((from, None, to))
                },
                None => Some((from, None, to)),
            }
        },
        None => None,
    }
}

/// The stem of the file that `path` names.
pub fn stem_of(path: &str) -> (stem: Option<String>)
    ensures
        match stem {
            Some(text) => file_stem(path@) == Some(text@),
            None => file_stem(path@) is None,
        },
{
    let chars = chars_of(path);
    match name_parts(&chars) {
        Some((from, dot, to)) => {
            let ghost name = chars@.subrange(from as int, to as int);
            match dot {
                Some(at) => {
                    assert(name.take(at - from) =~= chars@.subrange(from as int, at as int));
                    Some(slice_of(path, from, at))
                },
                None => Some(slice_of(path, from, to)),
            }
        },
        None => None,
    }
}

/// The stem of the file that `path` names, with its extension where it has
/// one.
pub fn stem_and_extension_of(path: &str) -> (parts: Option<(String, Option<String>)>)
    ensures
        match parts {
            Some((stem, extension)) => file_stem(path@) == Some(stem@) && file_extension(path@)
                == option_view(extension),
            None => file_stem(path@) is None && file_extension(path@) is None,
        },
{
    let chars = chars_of(path);
    match name_parts(&chars) {
        Some((from, dot, to)) => {
            let ghost name = chars@.subrange(from as int, to as int);
            match dot {
                Some(at) => {
                    assert(name.take(at - from) =~= chars@.subrange(from as int, at as int));
                    assert(name.skip(at - from + 1) =~= chars@.subrange(at + 1, to as int));
                    Some((slice_of(path, from, at), Some(slice_of(path, at + 1, to))))
                },
                None => Some((slice_of(path, from, to), None)),
            }
        },
        None => None,
    }
}

/// The extension of the file that `path` names.
pub fn extension_of(path: &str) -> (extension: Option<String>)
    ensures
        match extension {
            Some(text) => file_extension(path@) == Some(text@),
            None => file_extension(path@) is None,
        },
{
    let chars = chars_of(path);
    match name_parts(&chars) {
        Some((from, dot, to)) => {
            let ghost name = chars@.subrange(from as int, to as int);
            match dot {
                Some(at) => {
                    assert(name.skip(at - from + 1) =~= chars@.subrange(at + 1, to as int));
                    Some(slice_of(path, at + 1, to))
                },
                None => None,
            }
        },
        None => None,
    }
}

} // verus!
