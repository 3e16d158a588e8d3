use vstd::prelude::*;
use vstd::string::*;
use crate::chars::{spec_parse_i32, parse_i32};

verus! {

/// Start and end position markers of a highlight, in the reading
/// device's internal location unit (not page numbers).
#[derive(Clone, Copy, Debug, PartialEq, Eq, Structural)]
pub struct Location {
    pub start: i32,
    pub end: i32,
}

/// Index of the last `-` in `s`, or `-1` if there is none.
pub open spec fn last_dash(s: Seq<char>) -> int
    decreases s.len(),
{
    if s.len() == 0 {
        -1
    } else if s.last() == '-' {
        s.len() - 1
    } else {
        last_dash(s.drop_last())
    }
}

/// A `start-end` range, split at its last `-`, both halves read as `i32`.
pub open spec fn spec_parse_location(s: Seq<char>) -> Option<Location> {
    let p = last_dash(s);
    if p < 0 {
        None
    } else {
        match (spec_parse_i32(s.subrange(0, p)), spec_parse_i32(
            s.subrange(p + 1, s.len() as int),
        )) {
            (Some(a), Some(b)) => Some(Location { start: a, end: b }),
            _ => None,
        }
    }
}

/// Parses a location range `start-end`; the caller substitutes the
/// zero default when this fails.
pub fn parse_location(location_string: String) -> (r: Option<Location>)
    ensures
        r == spec_parse_location(location_string@),
{
    let s = location_string.as_str();
    let n = s.unicode_len();
    proof {
        assert(s@.subrange(0, n as int) =~= s@);
    }
    let mut i: usize = n;
    while i > 0
        invariant
            0 <= i <= n,
            n == s@.len(),
            s@ == location_string@,
            last_dash(s@) == last_dash(s@.subrange(0, i as int)),
        decreases i,
    {
        proof {
            assert(s@.subrange(0, i as int).drop_last() =~= s@.subrange(0, i - 1));
        }
        if s.get_char(i - 1) == '-' {
            proof {
                assert(s@.subrange(0, i as int).last() == s@[i - 1]);
                assert(last_dash(s@) == i - 1);
            }
            let left = s.substring_char(0, i - 1);
            let right = s.substring_char(i, n);
            let a = parse_i32(left);
            let b = parse_i32(right);
            match (a, b) {
                (Some(a), Some(b)) => {
                    return Some(Location { start: a, end: b });
                },
                _ => {
                    return None;
                },
            }
        }
        i = i - 1;
    }
    proof {
        assert(s@.subrange(0, 0) =~= Seq::<char>::empty());
    }
    None
}

} // verus!
