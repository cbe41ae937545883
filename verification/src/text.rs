//! Splitting text on a separator, as sequences of characters.

use vstd::prelude::*;
use vstd::string::*;

verus! {

/// Whether `sep` occurs in `s` at position `i`.
pub open spec fn occurs_at(s: Seq<char>, sep: Seq<char>, i: int) -> bool {
    0 <= i && i + sep.len() <= s.len() && s.subrange(i, i + sep.len()) == sep
}

/// The first position at or after `from` where `sep` occurs in `s`, or -1.
pub open spec fn find_from(s: Seq<char>, sep: Seq<char>, from: int) -> int
    decreases s.len() - from,
{
    if from < 0 || from >= s.len() || from + sep.len() > s.len() {
        -1
    } else if occurs_at(s, sep, from) {
        from
    } else {
        find_from(s, sep, from + 1)
    }
}

/// The pieces of `s` between the occurrences of `sep`, found from left to
/// right without overlap. There is always at least one piece, and pieces may
/// be empty. With an empty separator the text is a single piece.
pub open spec fn split(s: Seq<char>, sep: Seq<char>) -> Seq<Seq<char>>
    decreases s.len(),
{
    let at = find_from(s, sep, 0);
    if sep.len() == 0 || at < 0 || at + sep.len() > s.len() {
        seq![s]
    } else {
        seq![s.subrange(0, at)] + split(s.subrange(at + sep.len(), s.len() as int), sep)
    }
}

/// The views of a vector of strings.
pub open spec fn views(v: Seq<String>) -> Seq<Seq<char>> {
    Seq::new(v.len(), |i: int| v[i]@)
}

/// `find_from` answers with -1 or with a position where `sep` occurs, and no
/// occurrence lies between `from` and that position.
pub proof fn find_from_is_first(s: Seq<char>, sep: Seq<char>, from: int)
    requires
        0 <= from,
    ensures
        find_from(s, sep, from) == -1 || (from <= find_from(s, sep, from) && occurs_at(
            s,
            sep,
            find_from(s, sep, from),
        )),
        sep.len() > 0 ==> forall|k: int|
            from <= k && (k < find_from(s, sep, from) || find_from(s, sep, from) == -1)
                ==> !occurs_at(s, sep, k),
    decreases s.len() - from,
{
    if from >= s.len() || from + sep.len() > s.len() {
    } else if occurs_at(s, sep, from) {
    } else {
        find_from_is_first(s, sep, from + 1);
    }
}

/// The characters of a string, one by one.
pub fn chars_of(text: &str) -> (out: Vec<char>)
    ensures
        out@ == text@,
{
    let n: usize = text.unicode_len();
    let mut out: Vec<char> = Vec::new();
    let mut i: usize = 0;
    while i < n
        invariant
            n == text@.len(),
            i <= n,
            out@ == text@.subrange(0, i as int),
        decreases n - i,
    {
        out.push(text.get_char(i));
        i += 1;
        assert(out@ =~= text@.subrange(0, i as int));
    }
    assert(text@.subrange(0, n as int) =~= text@);
    out
}

/// Searching in a suffix of `s` is searching in `s` from where the suffix
/// starts.
pub proof fn find_from_in_suffix(s: Seq<char>, sep: Seq<char>, start: int, from: int)
    requires
        0 <= start <= s.len(),
        0 <= from,
    ensures
        find_from(s.subrange(start, s.len() as int), sep, from) == (if find_from(
            s,
            sep,
            start + from,
        ) == -1 {
            -1
        } else {
            find_from(s, sep, start + from) - start
        }),
    decreases s.len() - start - from,
{
    let tail = s.subrange(start, s.len() as int);
    if from >= tail.len() || from + sep.len() > tail.len() {
    } else {
        assert(tail.subrange(from, from + sep.len()) =~= s.subrange(
            start + from,
            start + from + sep.len(),
        ));
        if occurs_at(tail, sep, from) {
        } else {
            find_from_in_suffix(s, sep, start, from + 1);
        }
    }
}

/// Whether `sep` occurs in `s` at position `at`.
pub fn matches_at(s: &Vec<char>, sep: &Vec<char>, at: usize) -> (found: bool)
    ensures
        found == occurs_at(s@, sep@, at as int),
{
    let n: usize = s.len();
    let m: usize = sep.len();
    if at > n || n - at < m {
        return false;
    }
    let mut j: usize = 0;
    while j < m
        invariant
            n == s@.len(),
            m == sep@.len(),
            at + m <= n,
            j <= m,
            forall|k: int| 0 <= k < j ==> s@[at + k] == sep@[k],
        decreases m - j,
    {
        if s[at + j] != sep[j] {
            assert(s@.subrange(at as int, at + m)[j as int] == s@[at + j]);
            return false;
        }
        j += 1;
    }
    assert(s@.subrange(at as int, at + m) =~= sep@);
    true
}

/// The first position at or after `from` where `sep` occurs in `s`.
pub fn find(s: &Vec<char>, sep: &Vec<char>, from: usize) -> (at: Option<usize>)
    ensures
        match at {
            Some(i) => find_from(s@, sep@, from as int) == i,
            None => find_from(s@, sep@, from as int) == -1,
        },
{
    let n: usize = s.len();
    let m: usize = sep.len();
    let mut i: usize = from;
    while i < n && n - i >= m
        invariant
            n == s@.len(),
            m == sep@.len(),
            from <= i,
            find_from(s@, sep@, from as int) == find_from(s@, sep@, i as int),
        decreases n - i,
    {
        if matches_at(s, sep, i) {
            return Some(i);
        }
        i += 1;
    }
    None
}

/// Splits `text` on `sep`.
pub fn split_text(text: &str, sep: &str) -> (pieces: Vec<String>)
    ensures
        views(pieces@) == split(text@, sep@),
{
    let chars = chars_of(text);
    let pattern = chars_of(sep);
    let n: usize = chars.len();
    let m: usize = pattern.len();
    let mut pieces: Vec<String> = Vec::new();
    if m == 0 {
        pieces.push(text.to_owned());
        assert(views(pieces@) =~= split(text@, sep@));
        return pieces;
    }
    let mut start: usize = 0;
    proof {
        assert(text@.subrange(0, n as int) =~= text@);
        assert(views(pieces@) + split(text@, sep@) =~= split(text@, sep@));
    }
    loop
        invariant
            chars@ == text@,
            pattern@ == sep@,
            n == text@.len(),
            m == sep@.len(),
            m > 0,
            start <= n,
            views(pieces@) + split(text@.subrange(start as int, n as int), sep@) == split(
                text@,
                sep@,
            ),
        decreases n - start,
    {
        let ghost rest = text@.subrange(start as int, n as int);
        let ghost before = views(pieces@);
        proof {
            find_from_in_suffix(text@, sep@, start as int, 0);
            find_from_is_first(text@, sep@, start as int);
        }
        match find(&chars, &pattern, start) {
            Some(at) => {
                pieces.push(text.substring_char(start, at).to_owned());
                proof {
                    assert(rest.subrange(0, at - start) =~= text@.subrange(
                        start as int,
                        at as int,
                    ));
                    assert(rest.subrange(at - start + m, rest.len() as int) =~= text@.subrange(
                        at + m,
                        n as int,
                    ));
                    assert(views(pieces@) =~= before + seq![rest.subrange(0, at - start)]);
                    assert(before + (seq![rest.subrange(0, at - start)] + split(
                        text@.subrange(at + m, n as int),
                        sep@,
                    )) =~= views(pieces@) + split(text@.subrange(at + m, n as int), sep@));
                }
                start = at + m;
            },
            None => {
                pieces.push(text.substring_char(start, n).to_owned());
                proof {
                    assert(views(pieces@) =~= before + seq![rest]);
                }
                return pieces;
            },
        }
    }
}

} // verus!
