use vstd::prelude::*;
use vstd::string::*;
use crate::chars::{find_char, find_char_exec};

verus! {

// The header line carries `<title> (<author>)`. Three conventions for the
// parenthetical are tried in order of specificity, each anchored at the
// line's last fitting `" ("` (the title may itself contain parentheses):
//   1. `(<last>, <first...>)` — reassembled as `"<first...> <last>"`;
//   2. `(<first-token> <rest>)` — kept in source order;
//   3. `(<anything>)` — kept verbatim.
// A non-empty line that fits none is all title, with author `"Unknown"`.

pub open spec fn ends_paren(s: Seq<char>) -> bool {
    s.len() > 0 && s[s.len() - 1] == ')'
}

/// `" ("` opens an interior at `i` and the line closes with `)`.
pub open spec fn open_at(s: Seq<char>, i: int) -> bool {
    &&& ends_paren(s)
    &&& 0 <= i
    &&& i + 2 <= s.len() - 1
    &&& s[i] == ' '
    &&& s[i + 1] == '('
}

/// The interior between `" ("` at `i` and the final `)`.
pub open spec fn seg(s: Seq<char>, i: int) -> Seq<char> {
    s.subrange(i + 2, s.len() - 1)
}

/// Interior shape `<last>, <rest>`: a comma-free run, then `", "`.
pub open spec fn seg1_ok(b: Seq<char>) -> bool {
    let m = find_char(b, ',', 0);
    m < b.len() && m + 1 < b.len() && b[m + 1] == ' '
}

/// Interior shape `<token> <rest>` with a comma-free first token:
/// a space occurs before any comma.
pub open spec fn seg2_ok(b: Seq<char>) -> bool {
    let sp = find_char(b, ' ', 0);
    sp < b.len() && sp < find_char(b, ',', 0)
}

/// Rightmost `j <= i` where the first convention fits, `-1` if none.
pub open spec fn scan1(s: Seq<char>, i: int) -> int
    decreases i + 1,
{
    if i < 0 {
        -1
    } else if open_at(s, i) && seg1_ok(seg(s, i)) {
        i
    } else {
        scan1(s, i - 1)
    }
}

/// Rightmost `j <= i` where the second convention fits, `-1` if none.
pub open spec fn scan2(s: Seq<char>, i: int) -> int
    decreases i + 1,
{
    if i < 0 {
        -1
    } else if open_at(s, i) && seg2_ok(seg(s, i)) {
        i
    } else {
        scan2(s, i - 1)
    }
}

/// Rightmost `j <= i` where any parenthetical fits, `-1` if none.
pub open spec fn scan3(s: Seq<char>, i: int) -> int
    decreases i + 1,
{
    if i < 0 {
        -1
    } else if open_at(s, i) {
        i
    } else {
        scan3(s, i - 1)
    }
}

/// The `(title, author)` a header line yields, or nothing for an empty line.
pub open spec fn spec_parse_first_line(s: Seq<char>) -> Option<(Seq<char>, Seq<char>)> {
    let i1 = scan1(s, s.len() - 3);
    let i2 = scan2(s, s.len() - 3);
    let i3 = scan3(s, s.len() - 3);
    if s.len() == 0 {
        None
    } else if i1 > 0 {
        let b = seg(s, i1);
        let m = find_char(b, ',', 0);
        Some((s.subrange(0, i1), b.subrange(m + 2, b.len() as int) + " "@ + b.subrange(0, m)))
    } else if i1 < 0 && i2 > 0 {
        Some((s.subrange(0, i2), seg(s, i2)))
    } else if i1 < 0 && i2 < 0 && i3 > 0 {
        Some((s.subrange(0, i3), seg(s, i3)))
    } else {
        Some((s, "Unknown"@))
    }
}

/// The first convention at position `j`: `" ("` here, and the interior
/// holds `", "` after a comma-free run.
fn cond1(s: &str, n: usize, j: usize) -> (r: bool)
    requires
        n == s@.len(),
        j + 3 <= n,
    ensures
        r == (open_at(s@, j as int) && seg1_ok(seg(s@, j as int))),
{
    if !(s.get_char(n - 1) == ')' && s.get_char(j) == ' ' && s.get_char(j + 1) == '(') {
        return false;
    }
    let b = s.substring_char(j + 2, n - 1);
    let bn = b.unicode_len();
    let m = find_char_exec(b, ',', 0);
    m < bn && m + 1 < bn && b.get_char(m + 1) == ' '
}

/// The second convention at position `j`.
fn cond2(s: &str, n: usize, j: usize) -> (r: bool)
    requires
        n == s@.len(),
        j + 3 <= n,
    ensures
        r == (open_at(s@, j as int) && seg2_ok(seg(s@, j as int))),
{
    if !(s.get_char(n - 1) == ')' && s.get_char(j) == ' ' && s.get_char(j + 1) == '(') {
        return false;
    }
    let b = s.substring_char(j + 2, n - 1);
    let bn = b.unicode_len();
    let sp = find_char_exec(b, ' ', 0);
    let m = find_char_exec(b, ',', 0);
    sp < bn && sp < m
}

/// The third convention at position `j`.
fn cond3(s: &str, n: usize, j: usize) -> (r: bool)
    requires
        n == s@.len(),
        j + 3 <= n,
    ensures
        r == open_at(s@, j as int),
{
    s.get_char(n - 1) == ')' && s.get_char(j) == ' ' && s.get_char(j + 1) == '('
}

fn scan1_exec(s: &str) -> (r: Option<usize>)
    ensures
        r matches Some(u) ==> scan1(s@, s@.len() - 3) == u && open_at(s@, u as int) && seg1_ok(
            seg(s@, u as int),
        ),
        r is None ==> scan1(s@, s@.len() - 3) == -1,
{
    let n = s.unicode_len();
    if n < 3 {
        proof {
            assert(scan1(s@, s@.len() - 3) == -1);
        }
        return None;
    }
    let mut i: usize = n - 2;
    while i > 0
        invariant
            0 <= i <= n - 2,
            n == s@.len(),
            n >= 3,
            scan1(s@, s@.len() - 3) == scan1(s@, i - 1),
        decreases i,
    {
        let j = i - 1;
        if cond1(s, n, j) {
            proof {
                assert(scan1(s@, j as int) == j);
            }
            return Some(j);
        }
        proof {
            assert(scan1(s@, j as int) == scan1(s@, j - 1));
        }
        i = j;
    }
    proof {
        assert(scan1(s@, -1) == -1);
    }
    None
}

fn scan2_exec(s: &str) -> (r: Option<usize>)
    ensures
        r matches Some(u) ==> scan2(s@, s@.len() - 3) == u && open_at(s@, u as int) && seg2_ok(
            seg(s@, u as int),
        ),
        r is None ==> scan2(s@, s@.len() - 3) == -1,
{
    let n = s.unicode_len();
    if n < 3 {
        proof {
            assert(scan2(s@, s@.len() - 3) == -1);
        }
        return None;
    }
    let mut i: usize = n - 2;
    while i > 0
        invariant
            0 <= i <= n - 2,
            n == s@.len(),
            n >= 3,
            scan2(s@, s@.len() - 3) == scan2(s@, i - 1),
        decreases i,
    {
        let j = i - 1;
        if cond2(s, n, j) {
            proof {
                assert(scan2(s@, j as int) == j);
            }
            return Some(j);
        }
        proof {
            assert(scan2(s@, j as int) == scan2(s@, j - 1));
        }
        i = j;
    }
    proof {
        assert(scan2(s@, -1) == -1);
    }
    None
}

fn scan3_exec(s: &str) -> (r: Option<usize>)
    ensures
        r matches Some(u) ==> scan3(s@, s@.len() - 3) == u && open_at(s@, u as int),
        r is None ==> scan3(s@, s@.len() - 3) == -1,
{
    let n = s.unicode_len();
    if n < 3 {
        proof {
            assert(scan3(s@, s@.len() - 3) == -1);
        }
        return None;
    }
    let mut i: usize = n - 2;
    while i > 0
        invariant
            0 <= i <= n - 2,
            n == s@.len(),
            n >= 3,
            scan3(s@, s@.len() - 3) == scan3(s@, i - 1),
        decreases i,
    {
        let j = i - 1;
        if cond3(s, n, j) {
            proof {
                assert(scan3(s@, j as int) == j);
            }
            return Some(j);
        }
        proof {
            assert(scan3(s@, j as int) == scan3(s@, j - 1));
        }
        i = j;
    }
    proof {
        assert(scan3(s@, -1) == -1);
    }
    None
}

/// A scan that found a position found one where its convention holds.
proof fn lemma_scan1_hit(s: Seq<char>, i: int)
    ensures
        scan1(s, i) == -1 || (0 <= scan1(s, i) <= i && open_at(s, scan1(s, i))),
    decreases i + 1,
{
    if i >= 0 && !(open_at(s, i) && seg1_ok(seg(s, i))) {
        lemma_scan1_hit(s, i - 1);
    }
}

proof fn lemma_scan2_hit(s: Seq<char>, i: int)
    ensures
        scan2(s, i) == -1 || (0 <= scan2(s, i) <= i && open_at(s, scan2(s, i))),
    decreases i + 1,
{
    if i >= 0 && !(open_at(s, i) && seg2_ok(seg(s, i))) {
        lemma_scan2_hit(s, i - 1);
    }
}

proof fn lemma_scan3_hit(s: Seq<char>, i: int)
    ensures
        scan3(s, i) == -1 || (0 <= scan3(s, i) <= i && open_at(s, scan3(s, i))),
    decreases i + 1,
{
    if i >= 0 && !open_at(s, i) {
        lemma_scan3_hit(s, i - 1);
    }
}

/// Every non-empty header line yields a result, and its book title is
/// non-empty.
pub proof fn lemma_book_nonempty(s: Seq<char>)
    requires
        s.len() > 0,
    ensures
        spec_parse_first_line(s) matches Some(ba) && ba.0.len() > 0,
{
    lemma_scan1_hit(s, s.len() - 3);
    lemma_scan2_hit(s, s.len() - 3);
    lemma_scan3_hit(s, s.len() - 3);
}

/// Parses the header line into the book title and the author string.
pub fn parse_first_line(line: String) -> (r: Option<(String, String)>)
    ensures
        ({
            let sp = spec_parse_first_line(line@);
            match r {
                Some(p) => sp matches Some(q) && p.0@ == q.0 && p.1@ == q.1,
                None => sp is None,
            }
        }),
{
    let s = line.as_str();
    let n = s.unicode_len();
    if n == 0 {
        return None;
    }
    if let Some(i) = scan1_exec(s) {
        if i > 0 {
            let book = String::from_str(s.substring_char(0, i));
            let b = s.substring_char(i + 2, n - 1);
            let bn = b.unicode_len();
            let m = find_char_exec(b, ',', 0);
            let rest = b.substring_char(m + 2, bn);
            let last = b.substring_char(0, m);
            let author = String::from_str(rest).concat(" ").concat(last);
            proof {
                assert(author@ =~= seg(s@, i as int).subrange(
                    m + 2,
                    seg(s@, i as int).len() as int,
                ) + " "@ + seg(s@, i as int).subrange(0, m as int));
            }
            return Some((book, author));
        }
        return Some((String::from_str(s), String::from_str("Unknown")));
    }
    if let Some(i) = scan2_exec(s) {
        if i > 0 {
            let book = String::from_str(s.substring_char(0, i));
            let author = String::from_str(s.substring_char(i + 2, n - 1));
            return Some((book, author));
        }
        return Some((String::from_str(s), String::from_str("Unknown")));
    }
    if let Some(i) = scan3_exec(s) {
        if i > 0 {
            let book = String::from_str(s.substring_char(0, i));
            let author = String::from_str(s.substring_char(i + 2, n - 1));
            return Some((book, author));
        }
        return Some((String::from_str(s), String::from_str("Unknown")));
    }
    Some((String::from_str(s), String::from_str("Unknown")))
}

} // verus!
