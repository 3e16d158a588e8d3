use vstd::prelude::*;
use vstd::string::*;
use crate::chars::{find_char, find_char_exec, match_at, match_lit, spec_parse_i32, parse_i32};
use crate::location::{Location, spec_parse_location, parse_location};
use crate::datetime::{
    spec_parse_datetime, parse_datetime_checked, chrono_epoch_of, fmt_12h, fmt_24h,
};
use crate::diagnostics::{Warning, WarningKind, SpecWarning};

verus! {

// The metadata line has two shapes, tried in order:
//   1. `- Your Highlight ... page <P> | Location <L> | Added on <D>`
//   2. `- Your Highlight ... Location <L> | Added on <D>`
// ("highlight" may be lower-case; nothing before the page or location
// marker may contain `|`.) Each group is cut greedily: the earliest
// marker choice takes the rightmost position that still lets the rest of
// the line fit, and later groups extend as far right as they can.

/// `- Your Highlight` or `- Your highlight` opens the line (16 characters).
pub open spec fn hl_prefix(s: Seq<char>) -> bool {
    match_at(s, "- Your Highlight"@, 0) || match_at(s, "- Your highlight"@, 0)
}

/// `" | Added on "` sits at `u` (12 characters).
pub open spec fn added_at(s: Seq<char>, u: int) -> bool {
    match_at(s, " | Added on "@, u)
}

/// `" | Location "` (either case) sits at `t` (12 characters).
pub open spec fn loc1_at(s: Seq<char>, t: int) -> bool {
    match_at(s, " | Location "@, t) || match_at(s, " | location "@, t)
}

/// `"Location "` (either case) sits at `q` (9 characters).
pub open spec fn loc2_at(s: Seq<char>, q: int) -> bool {
    match_at(s, "Location "@, q) || match_at(s, "location "@, q)
}

/// `"page "` sits at `q` (5 characters).
pub open spec fn page_at(s: Seq<char>, q: int) -> bool {
    match_at(s, "page "@, q)
}

/// Rightmost `u` in `[lo, i]` with `" | Added on "` at `u`; `-1` if none.
pub open spec fn rscan_added(s: Seq<char>, lo: int, i: int) -> int
    decreases i - lo + 1,
{
    if i < lo || lo < 0 {
        -1
    } else if added_at(s, i) {
        i
    } else {
        rscan_added(s, lo, i - 1)
    }
}

/// Rightmost `t` in `[lo, i]` where `" | Location "` sits and an
/// `" | Added on "` still follows; `-1` if none.
pub open spec fn rscan_loc1(s: Seq<char>, lo: int, i: int) -> int
    decreases i - lo + 1,
{
    if i < lo || lo < 0 {
        -1
    } else if loc1_at(s, i) && rscan_added(s, i + 12, s.len() - 12) >= 0 {
        i
    } else {
        rscan_loc1(s, lo, i - 1)
    }
}

/// Rightmost `q` in `[16, i]` where `"page "` sits and the rest of the
/// first shape still fits; `-1` if none.
pub open spec fn rscan_page(s: Seq<char>, i: int) -> int
    decreases i - 15,
{
    if i < 16 {
        -1
    } else if page_at(s, i) && rscan_loc1(s, i + 5, s.len() - 12) >= 0 {
        i
    } else {
        rscan_page(s, i - 1)
    }
}

/// Rightmost `q` in `[16, i]` where `"Location "` sits and an
/// `" | Added on "` still follows; `-1` if none.
pub open spec fn rscan_loc2(s: Seq<char>, i: int) -> int
    decreases i - 15,
{
    if i < 16 {
        -1
    } else if loc2_at(s, i) && rscan_added(s, i + 9, s.len() - 12) >= 0 {
        i
    } else {
        rscan_loc2(s, i - 1)
    }
}

/// The `(page, location, date)` groups of the first shape. The page
/// marker may sit no further than the first `|` after the prefix.
pub open spec fn meta1_groups(s: Seq<char>) -> Option<(Seq<char>, Seq<char>, Seq<char>)> {
    if hl_prefix(s) {
        let q = rscan_page(s, find_char(s, '|', 16));
        if q >= 0 {
            let t = rscan_loc1(s, q + 5, s.len() - 12);
            let u = rscan_added(s, t + 12, s.len() - 12);
            Some(
                (
                    s.subrange(q + 5, t),
                    s.subrange(t + 12, u),
                    s.subrange(u + 12, s.len() as int),
                ),
            )
        } else {
            None
        }
    } else {
        None
    }
}

/// The `(location, date)` groups of the second shape.
pub open spec fn meta2_groups(s: Seq<char>) -> Option<(Seq<char>, Seq<char>)> {
    if hl_prefix(s) {
        let q = rscan_loc2(s, find_char(s, '|', 16));
        if q >= 0 {
            let u = rscan_added(s, q + 9, s.len() - 12);
            Some((s.subrange(q + 9, u), s.subrange(u + 12, s.len() as int)))
        } else {
            None
        }
    } else {
        None
    }
}

/// An unparseable location range softly defaults to zero markers.
pub open spec fn loc_or_default(g: Seq<char>) -> Location {
    match spec_parse_location(g) {
        Some(l) => l,
        None => Location { start: 0, end: 0 },
    }
}

/// What the metadata line yields: the optional page, the location (zero
/// when its range does not parse), and the normalized timestamp (zero
/// when the date does not parse). A line of neither shape yields nothing,
/// and so does a first-shape line whose page is not a valid `i32`: either
/// way the caller drops the block, and nothing worse happens.
pub open spec fn spec_parse_second_line(s: Seq<char>) -> Option<(Option<i32>, Location, i64)> {
    match meta1_groups(s) {
        Some(g) => match spec_parse_i32(g.0) {
            Some(p) => Some((Some(p), loc_or_default(g.1), spec_parse_datetime(g.2))),
            None => None,
        },
        None => match meta2_groups(s) {
            Some(g) => Some((None, loc_or_default(g.0), spec_parse_datetime(g.1))),
            None => None,
        },
    }
}

fn radded_exec(s: &str, n: usize, lo: usize) -> (r: Option<usize>)
    requires
        n == s@.len(),
    ensures
        r matches Some(u) ==> rscan_added(s@, lo as int, s@.len() - 12) == u && added_at(
            s@,
            u as int,
        ) && lo <= u <= s@.len() - 12,
        r is None ==> rscan_added(s@, lo as int, s@.len() - 12) == -1,
{
    if n < 12 {
        return None;
    }
    let hi = n - 12;
    if hi < lo {
        return None;
    }
    let mut i: usize = hi;
    loop
        invariant
            lo <= i <= hi,
            hi == n - 12,
            n >= 12,
            n == s@.len(),
            rscan_added(s@, lo as int, hi as int) == rscan_added(s@, lo as int, i as int),
        decreases i,
    {
        if match_lit(s, " | Added on ", i) {
            proof {
                assert(rscan_added(s@, lo as int, i as int) == i);
            }
            return Some(i);
        }
        proof {
            assert(rscan_added(s@, lo as int, i as int) == rscan_added(s@, lo as int, i - 1));
        }
        if i == lo {
            return None;
        }
        i = i - 1;
    }
}

fn rloc1_exec(s: &str, n: usize, lo: usize) -> (r: Option<usize>)
    requires
        n == s@.len(),
    ensures
        r matches Some(t) ==> rscan_loc1(s@, lo as int, s@.len() - 12) == t && loc1_at(
            s@,
            t as int,
        ) && rscan_added(s@, t + 12, s@.len() - 12) >= 0 && lo <= t <= s@.len() - 12,
        r is None ==> rscan_loc1(s@, lo as int, s@.len() - 12) == -1,
{
    if n < 12 {
        return None;
    }
    let hi = n - 12;
    if hi < lo {
        return None;
    }
    let mut i: usize = hi;
    loop
        invariant
            lo <= i <= hi,
            hi == n - 12,
            n >= 12,
            n == s@.len(),
            rscan_loc1(s@, lo as int, hi as int) == rscan_loc1(s@, lo as int, i as int),
        decreases i,
    {
        let here = (match_lit(s, " | Location ", i) || match_lit(s, " | location ", i))
            && radded_exec(s, n, i + 12).is_some();
        if here {
            proof {
                assert(rscan_loc1(s@, lo as int, i as int) == i);
            }
            return Some(i);
        }
        proof {
            assert(rscan_loc1(s@, lo as int, i as int) == rscan_loc1(s@, lo as int, i - 1));
        }
        if i == lo {
            return None;
        }
        i = i - 1;
    }
}

fn rpage_exec(s: &str, n: usize, bar: usize) -> (r: Option<usize>)
    requires
        n == s@.len(),
        bar <= n,
    ensures
        r matches Some(q) ==> rscan_page(s@, bar as int) == q && page_at(s@, q as int)
            && rscan_loc1(s@, q + 5, s@.len() - 12) >= 0 && 16 <= q <= bar,
        r is None ==> rscan_page(s@, bar as int) == -1,
{
    if bar < 16 {
        return None;
    }
    proof {
        reveal_strlit("page ");
    }
    let mut i: usize = bar;
    loop
        invariant
            16 <= i <= bar,
            bar <= n,
            n == s@.len(),
            rscan_page(s@, bar as int) == rscan_page(s@, i as int),
        decreases i,
    {
        proof {
            reveal_strlit("page ");
        }
        let here = match_lit(s, "page ", i) && rloc1_exec(s, n, i + 5).is_some();
        if here {
            proof {
                assert(rscan_page(s@, i as int) == i);
            }
            return Some(i);
        }
        proof {
            assert(rscan_page(s@, i as int) == rscan_page(s@, i - 1));
        }
        if i == 16 {
            return None;
        }
        i = i - 1;
    }
}

fn rloc2_exec(s: &str, n: usize, bar: usize) -> (r: Option<usize>)
    requires
        n == s@.len(),
        bar <= n,
    ensures
        r matches Some(q) ==> rscan_loc2(s@, bar as int) == q && loc2_at(s@, q as int)
            && rscan_added(s@, q + 9, s@.len() - 12) >= 0 && 16 <= q <= bar,
        r is None ==> rscan_loc2(s@, bar as int) == -1,
{
    if bar < 16 {
        return None;
    }
    proof {
        reveal_strlit("Location ");
        reveal_strlit("location ");
    }
    let mut i: usize = bar;
    loop
        invariant
            16 <= i <= bar,
            bar <= n,
            n == s@.len(),
            rscan_loc2(s@, bar as int) == rscan_loc2(s@, i as int),
        decreases i,
    {
        proof {
            reveal_strlit("Location ");
            reveal_strlit("location ");
        }
        let here = (match_lit(s, "Location ", i) || match_lit(s, "location ", i)) && radded_exec(
            s,
            n,
            i + 9,
        ).is_some();
        if here {
            proof {
                assert(rscan_loc2(s@, i as int) == i);
            }
            return Some(i);
        }
        proof {
            assert(rscan_loc2(s@, i as int) == rscan_loc2(s@, i - 1));
        }
        if i == 16 {
            return None;
        }
        i = i - 1;
    }
}

/// A diagnostic for each field of a parsed line that fell back to its
/// default.
pub open spec fn spec_soft_warnings(locg: Seq<char>, dateg: Seq<char>) -> Seq<SpecWarning> {
    (if spec_parse_location(locg) is None {
        seq![SpecWarning { kind: WarningKind::LocationRange, text: locg }]
    } else {
        Seq::empty()
    }) + (if chrono_epoch_of(fmt_12h(), dateg) is None && chrono_epoch_of(fmt_24h(), dateg)
        is None {
        seq![SpecWarning { kind: WarningKind::DateAdded, text: dateg }]
    } else {
        Seq::empty()
    })
}

/// The diagnostics a metadata line produces: one for a line that fails as
/// a whole, else one per soft-defaulted field.
pub open spec fn spec_line_warnings(s: Seq<char>) -> Seq<SpecWarning> {
    match meta1_groups(s) {
        Some(g) => if spec_parse_i32(g.0) is Some {
            spec_soft_warnings(g.1, g.2)
        } else {
            seq![SpecWarning { kind: WarningKind::MetadataLine, text: s }]
        },
        None => match meta2_groups(s) {
            Some(g) => spec_soft_warnings(g.0, g.1),
            None => seq![SpecWarning { kind: WarningKind::MetadataLine, text: s }],
        },
    }
}

/// Parses the metadata line into page, location and timestamp, together
/// with the diagnostics the parse produced.
pub fn parse_second_line_logged(line: String) -> (r: (
    Option<(Option<i32>, Location, i64)>,
    Vec<Warning>,
))
    ensures
        r.0 == spec_parse_second_line(line@),
        r.1.deep_view() == spec_line_warnings(line@),
{
    let s = line.as_str();
    let n = s.unicode_len();
    if !(match_lit(s, "- Your Highlight", 0) || match_lit(s, "- Your highlight", 0)) {
        let warns = vec![
            Warning { kind: WarningKind::MetadataLine, text: String::from_str(s) },
        ];
        proof {
            assert(warns.deep_view() =~= spec_line_warnings(line@));
        }
        return (None, warns);
    }
    proof {
        reveal_strlit("- Your Highlight");
        reveal_strlit("- Your highlight");
    }
    let bar = find_char_exec(s, '|', 16);
    match rpage_exec(s, n, bar) {
        Some(q) => {
            let t = match rloc1_exec(s, n, q + 5) {
                Some(t) => t,
                None => {
                    proof {
                        assert(false);
                    }
                    return (None, Vec::new());
                },
            };
            let u = match radded_exec(s, n, t + 12) {
                Some(u) => u,
                None => {
                    proof {
                        assert(false);
                    }
                    return (None, Vec::new());
                },
            };
            let page_str = s.substring_char(q + 5, t);
            let loc_str = s.substring_char(t + 12, u);
            let date_str = s.substring_char(u + 12, n);
            let page = match parse_i32(page_str) {
                Some(p) => p,
                None => {
                    let warns = vec![
                        Warning { kind: WarningKind::MetadataLine, text: String::from_str(s) },
                    ];
                    proof {
                        assert(warns.deep_view() =~= spec_line_warnings(line@));
                    }
                    return (None, warns);
                },
            };
            let mut warns: Vec<Warning> = Vec::new();
            let location = match parse_location(String::from_str(loc_str)) {
                Some(l) => l,
                None => {
                    warns.push(
                        Warning {
                            kind: WarningKind::LocationRange,
                            text: String::from_str(loc_str),
                        },
                    );
                    Location { start: 0, end: 0 }
                },
            };
            let (date_added, date_failed) = parse_datetime_checked(String::from_str(date_str));
            if date_failed {
                warns.push(
                    Warning { kind: WarningKind::DateAdded, text: String::from_str(date_str) },
                );
            }
            proof {
                assert(warns.deep_view() =~= spec_soft_warnings(loc_str@, date_str@));
            }
            (Some((Some(page), location, date_added)), warns)
        },
        None => {
            match rloc2_exec(s, n, bar) {
                Some(q) => {
                    let u = match radded_exec(s, n, q + 9) {
                        Some(u) => u,
                        None => {
                            proof {
                                assert(false);
                            }
                            return (None, Vec::new());
                        },
                    };
                    let loc_str = s.substring_char(q + 9, u);
                    let date_str = s.substring_char(u + 12, n);
                    let mut warns: Vec<Warning> = Vec::new();
                    let location = match parse_location(String::from_str(loc_str)) {
                        Some(l) => l,
                        None => {
                            warns.push(
                                Warning {
                                    kind: WarningKind::LocationRange,
                                    text: String::from_str(loc_str),
                                },
                            );
                            Location { start: 0, end: 0 }
                        },
                    };
                    let (date_added, date_failed) = parse_datetime_checked(
                        String::from_str(date_str),
                    );
                    if date_failed {
                        warns.push(
                            Warning {
                                kind: WarningKind::DateAdded,
                                text: String::from_str(date_str),
                            },
                        );
                    }
                    proof {
                        assert(warns.deep_view() =~= spec_soft_warnings(loc_str@, date_str@));
                    }
                    (Some((None, location, date_added)), warns)
                },
                None => {
                    let warns = vec![
                        Warning { kind: WarningKind::MetadataLine, text: String::from_str(s) },
                    ];
                    proof {
                        assert(warns.deep_view() =~= spec_line_warnings(line@));
                    }
                    (None, warns)
                },
            }
        },
    }
}

/// Parses the metadata line into page, location and timestamp.
pub fn parse_second_line(line: String) -> (r: Option<(Option<i32>, Location, i64)>)
    ensures
        r == spec_parse_second_line(line@),
{
    let (r, _) = parse_second_line_logged(line);
    r
}

} // verus!
