//! Scanning and cutting of strings, character by character.
//!
//! Every function here is stated over the string's view, its sequence of
//! characters. Positions count characters, not bytes.

use vstd::prelude::*;
use vstd::std_specs::iter::IteratorSpec;

verus! {

/// The text that an optional string holds.
pub open spec fn option_view(text: Option<String>) -> Option<Seq<char>> {
    match text {
        Some(s) => Some(s@),
        None => None,
    }
}

/// The text that an optional string slice holds.
pub open spec fn option_str_view(text: Option<&str>) -> Option<Seq<char>> {
    match text {
        Some(s) => Some(s@),
        None => None,
    }
}

/// The texts of a list of strings.
pub open spec fn texts(list: Seq<String>) -> Seq<Seq<char>> {
    Seq::new(list.len(), |i: int| list[i]@)
}

/// The two parts of `s` around its first `c`: what stands ahead of it and what
/// follows it. `None` where `c` does not occur in `s`.
pub open spec fn split_once(s: Seq<char>, c: char) -> Option<(Seq<char>, Seq<char>)> {
    match s.index_of_first(c) {
        Some(i) => Some((s.take(i), s.skip(i + 1))),
        None => None,
    }
}

/// The characters that `trim` removes: the code points that Unicode lists
/// with the property `White_Space`.
pub open spec fn is_whitespace(c: char) -> bool {
    let n = c as u32;
    ||| 0x09 <= n <= 0x0d
    ||| n == 0x20
    ||| n == 0x85
    ||| n == 0xa0
    ||| n == 0x1680
    ||| 0x2000 <= n <= 0x200a
    ||| n == 0x2028
    ||| n == 0x2029
    ||| n == 0x202f
    ||| n == 0x205f
    ||| n == 0x3000
}

/// `s` without its leading whitespace.
pub open spec fn trim_start(s: Seq<char>) -> Seq<char>
    decreases s.len(),
{
    if s.len() > 0 && is_whitespace(s.first()) {
        trim_start(s.drop_first())
    } else {
        s
    }
}

/// `s` without its trailing whitespace.
pub open spec fn trim_end(s: Seq<char>) -> Seq<char>
    decreases s.len(),
{
    if s.len() > 0 && is_whitespace(s.last()) {
        trim_end(s.drop_last())
    } else {
        s
    }
}

/// `s` without the whitespace at either end.
pub open spec fn trim(s: Seq<char>) -> Seq<char> {
    trim_end(trim_start(s))
}

/// Whether every character of `s` is whitespace.
pub open spec fn all_whitespace(s: Seq<char>) -> bool {
    forall|i: int| 0 <= i < s.len() ==> is_whitespace(#[trigger] s[i])
}

/// Where `c` stands, with no `c` ahead of it, is the first occurrence of `c`.
pub proof fn lemma_first_occurrence(s: Seq<char>, c: char, i: int)
    requires
        0 <= i < s.len(),
        s[i] == c,
        forall|j: int| 0 <= j < i ==> s[j] != c,
    ensures
        s.index_of_first(c) == Some(i),
{
    s.index_of_first_ensures(c);
}

/// Where `c` stands, with no `c` behind it, is the last occurrence of `c`.
pub proof fn lemma_last_occurrence(s: Seq<char>, c: char, i: int)
    requires
        0 <= i < s.len(),
        s[i] == c,
        forall|j: int| i < j < s.len() ==> s[j] != c,
    ensures
        s.index_of_last(c) == Some(i),
{
    s.index_of_last_ensures(c);
}

/// `trim_start` drops exactly the run of whitespace that `s` begins with.
pub proof fn lemma_trim_start_skips(s: Seq<char>, n: int)
    requires
        0 <= n <= s.len(),
        all_whitespace(s.take(n)),
        n < s.len() ==> !is_whitespace(s[n]),
    ensures
        trim_start(s) == s.skip(n),
    decreases n,
{
    if n == 0 {
        assert(s.skip(0) =~= s);
    } else {
        assert(s.take(n)[0] == s[0]);
        let rest = s.drop_first();
        assert forall|i: int| 0 <= i < rest.take(n - 1).len() implies is_whitespace(
            #[trigger] rest.take(n - 1)[i],
        ) by {
            assert(rest.take(n - 1)[i] == s.take(n)[i + 1]);
        }
        lemma_trim_start_skips(rest, n - 1);
        assert(rest.skip(n - 1) =~= s.skip(n));
    }
}

/// `trim_end` drops exactly the run of whitespace that `s` ends with.
pub proof fn lemma_trim_end_takes(s: Seq<char>, n: int)
    requires
        0 <= n <= s.len(),
        all_whitespace(s.skip(n)),
        n > 0 ==> !is_whitespace(s[n - 1]),
    ensures
        trim_end(s) == s.take(n),
    decreases s.len() - n,
{
    if n == s.len() {
        assert(s.take(n) =~= s);
    } else {
        assert(s.skip(n)[s.len() - n - 1] == s.last());
        let rest = s.drop_last();
        assert forall|i: int| 0 <= i < rest.skip(n).len() implies is_whitespace(
            #[trigger] rest.skip(n)[i],
        ) by {
            assert(rest.skip(n)[i] == s.skip(n)[i]);
        }
        lemma_trim_end_takes(rest, n);
        assert(rest.take(n) =~= s.take(n));
    }
}

/// The characters of `s`, in order.
pub fn chars_of(s: &str) -> (chars: Vec<char>)
    ensures
        chars@ == s@,
{
    let mut chars: Vec<char> = Vec::new();
    for c in it: s.chars()
        invariant
            chars@ == it.seq().take(it.index() as int),
            it.seq() == s@,
    {
        chars.push(c);
    }
    chars
}

/// The part of `s` from position `from` up to, not including, position `to`,
/// as a string of its own.
pub fn slice_of(s: &str, from: usize, to: usize) -> (part: String)
    requires
        from <= to <= s@.len(),
    ensures
        part@ == s@.subrange(from as int, to as int),
{
    s.substring_char(from, to).to_owned()
}

/// Whether `c` is whitespace.
pub fn whitespace(c: char) -> (yes: bool)
    ensures
        yes == is_whitespace(c),
{
    let n: u32 = c as u32;
    (0x09 <= n && n <= 0x0d) || n == 0x20 || n == 0x85 || n == 0xa0 || n == 0x1680 || (0x2000 <= n
        && n <= 0x200a) || n == 0x2028 || n == 0x2029 || n == 0x202f || n == 0x205f || n == 0x3000
}

/// The position of the first `c` among the characters.
pub fn find_first(chars: &Vec<char>, c: char) -> (found: Option<usize>)
    ensures
        match found {
            Some(i) => chars@.index_of_first(c) == Some(i as int) && i < chars.len(),
            None => chars@.index_of_first(c) is None,
        },
{
    let mut i: usize = 0;
    while i < chars.len()
        invariant
            i <= chars.len(),
            forall|j: int| 0 <= j < i ==> chars@[j] != c,
        decreases chars.len() - i,
    {
        if chars[i] == c {
            proof {
                lemma_first_occurrence(chars@, c, i as int);
            }
            return Some(i);
        }
        i += 1;
    }
    proof {
        chars@.index_of_first_ensures(c);
    }
    None
}

/// The position of the last `c` among the characters from `start` up to `end`,
/// counted from `start`.
pub fn find_last(chars: &Vec<char>, c: char, start: usize, end: usize) -> (found: Option<usize>)
    requires
        start <= end <= chars.len(),
    ensures
        match found {
            Some(i) => chars@.subrange(start as int, end as int).index_of_last(c) == Some(i as int)
                && start + i < end,
            None => chars@.subrange(start as int, end as int).index_of_last(c) is None,
        },
{
    let ghost s = chars@.subrange(start as int, end as int);
    let mut i: usize = end;
    while i > start
        invariant
            start <= i <= end <= chars.len(),
            s == chars@.subrange(start as int, end as int),
            forall|j: int| i - start <= j < s.len() ==> s[j] != c,
        decreases i,
    {
        i -= 1;
        if chars[i] == c {
            proof {
                lemma_last_occurrence(s, c, i - start);
            }
            return Some(i - start);
        }
    }
    proof {
        s.index_of_last_ensures(c);
    }
    None
}

/// Cuts `s` at its first `c`.
pub fn cut_once(s: &str, c: char) -> (parts: Option<(String, String)>)
    ensures
        match parts {
            Some((head, tail)) => split_once(s@, c) == Some((head@, tail@)),
            None => split_once(s@, c) is None,
        },
{
    let chars = chars_of(s);
    match find_first(&chars, c) {
        Some(i) => {
            let head = slice_of(s, 0, i);
            let tail = slice_of(s, i + 1, chars.len());
            Some((head, tail))
        },
        None => None,
    }
}

/// `s` without the whitespace at either end.
pub fn trimmed(s: &str) -> (core: String)
    ensures
        core@ == trim(s@),
{
    let chars = chars_of(s);
    let len = chars.len();
    let mut from: usize = 0;
    while from < len && whitespace(chars[from])
        invariant
            from <= len == chars.len(),
            all_whitespace(chars@.take(from as int)),
        decreases len - from,
    {
        from += 1;
        assert forall|i: int| 0 <= i < chars@.take(from as int).len() implies is_whitespace(
            #[trigger] chars@.take(from as int)[i],
        ) by {
            if i < from - 1 {
                assert(chars@.take(from as int)[i] == chars@.take(from - 1)[i]);
            }
        }
    }
    let ghost rest = chars@.skip(from as int);
    let mut to: usize = len;
    while to > from && whitespace(chars[to - 1])
        invariant
            from <= to <= len == chars.len(),
            rest == chars@.skip(from as int),
            all_whitespace(rest.skip(to - from)),
        decreases to,
    {
        to -= 1;
        assert forall|i: int| 0 <= i < rest.skip(to - from).len() implies is_whitespace(
            #[trigger] rest.skip(to - from)[i],
        ) by {
            if i > 0 {
                assert(rest.skip(to - from)[i] == rest.skip(to - from + 1)[i - 1]);
            }
        }
    }
    proof {
        lemma_trim_start_skips(chars@, from as int);
        lemma_trim_end_takes(rest, to - from);
        assert(chars@.subrange(from as int, to as int) =~= rest.take(to - from));
    }
    slice_of(s, from, to)
}

/// Whether `s` begins with `prefix`.
pub fn begins_with(s: &str, prefix: &str) -> (yes: bool)
    ensures
        yes == prefix@.is_prefix_of(s@),
{
    let chars = chars_of(s);
    let start = chars_of(prefix);
    if start.len() > chars.len() {
        return false;
    }
    let mut i: usize = 0;
    while i < start.len()
        invariant
            i <= start.len() <= chars.len(),
            chars@ == s@,
            start@ == prefix@,
            forall|j: int| 0 <= j < i ==> chars@[j] == start@[j],
        decreases start.len() - i,
    {
        if chars[i] != start[i] {
            assert(chars@.subrange(0, start.len() as int)[i as int] != start@[i as int]);
            return false;
        }
        i += 1;
    }
    assert(start@ =~= chars@.subrange(0, start.len() as int));
    true
}

} // verus!
