//! Small operations on strings, stated over their characters.

use vstd::prelude::*;
use vstd::string::*;

verus! {

/// The characters of each string of a list.
pub open spec fn texts(list: Seq<String>) -> Seq<Seq<char>> {
    list.map_values(|s: String| s@)
}

/// `s` without the run of `c` at its end.
pub open spec fn without_trailing(s: Seq<char>, c: char) -> Seq<char>
    decreases s.len(),
{
    if s.len() > 0 && s.last() == c {
        without_trailing(s.drop_last(), c)
    } else {
        s
    }
}

/// What follows `prefix` in `s`, if `s` starts with it.
pub open spec fn after_prefix(s: Seq<char>, prefix: Seq<char>) -> Option<Seq<char>> {
    if prefix.is_prefix_of(s) {
        Some(s.skip(prefix.len() as int))
    } else {
        None
    }
}

/// Removing trailing characters leaves a prefix that does not end in `c`.
pub proof fn without_trailing_is_trimmed_prefix(s: Seq<char>, c: char)
    ensures
        without_trailing(s, c).is_prefix_of(s),
        without_trailing(s, c).len() == 0 || without_trailing(s, c).last() != c,
        forall|i: int| without_trailing(s, c).len() <= i < s.len() ==> s[i] == c,
    decreases s.len(),
{
    if s.len() > 0 && s.last() == c {
        let shorter = s.drop_last();
        without_trailing_is_trimmed_prefix(shorter, c);
        assert forall|i: int| without_trailing(s, c).len() <= i < s.len() implies s[i] == c by {
            if i < shorter.len() {
                assert(shorter[i] == s[i]);
            }
        }
    }
}

/// Whether two strings hold the same characters.
pub fn same_text(a: &str, b: &str) -> (same: bool)
    ensures
        same == (a@ == b@),
{
    let left = String::from_str(a);
    let right = String::from_str(b);
    left == right
}

/// `a` followed by `b`.
pub fn join(a: &str, b: &str) -> (joined: String)
    ensures
        joined@ == a@ + b@,
{
    String::from_str(a).concat(b)
}

/// Whether `list` holds a string with the characters of `s`.
pub fn contains_text(list: &Vec<String>, s: &str) -> (found: bool)
    ensures
        found == texts(list@).contains(s@),
{
    let mut i: usize = 0;
    while i < list.len()
        invariant
            i <= list.len(),
            forall|j: int| 0 <= j < i ==> texts(list@)[j] != s@,
        decreases list.len() - i,
    {
        if same_text(list[i].as_str(), s) {
            assert(texts(list@)[i as int] == s@);
            return true;
        }
        i += 1;
    }
    false
}

/// A sequence with one more element holds what it held before and that element.
pub proof fn push_contains<A>(s: Seq<A>, x: A, y: A)
    ensures
        s.push(x).contains(y) <==> (s.contains(y) || y == x),
{
    if s.contains(y) {
        let i = choose|i: int| 0 <= i < s.len() && s[i] == y;
        assert(s.push(x)[i] == y);
    }
    if y == x {
        assert(s.push(x)[s.len() as int] == y);
    }
}

/// Cuts every trailing `c` off `s`.
pub fn trim_trailing<'a>(s: &'a str, c: char) -> (trimmed: &'a str)
    ensures
        trimmed@ == without_trailing(s@, c),
{
    let mut end: usize = s.unicode_len();
    assert(s@.subrange(0, end as int) == s@);
    while end > 0 && s.get_char(end - 1) == c
        invariant
            end <= s@.len(),
            without_trailing(s@, c) == without_trailing(s@.subrange(0, end as int), c),
        decreases end,
    {
        assert(s@.subrange(0, end as int).drop_last() == s@.subrange(0, end - 1));
        end -= 1;
    }
    s.substring_char(0, end)
}

/// Takes `prefix` off the front of `s`, or reports that `s` does not start
/// with it.
pub fn strip_prefix<'a>(s: &'a str, prefix: &str) -> (rest: Option<&'a str>)
    ensures
        match rest {
            Some(r) => after_prefix(s@, prefix@) == Some(r@),
            None => after_prefix(s@, prefix@) is None,
        },
{
    let n: usize = prefix.unicode_len();
    let m: usize = s.unicode_len();
    if m < n {
        return None;
    }
    if same_text(s.substring_char(0, n), prefix) {
        Some(s.substring_char(n, m))
    } else {
        None
    }
}

} // verus!
