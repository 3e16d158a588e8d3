use vstd::prelude::*;
use vstd::string::*;

verus! {

/// ASCII decimal digit.
pub open spec fn is_digit(c: char) -> bool {
    48 <= c as int <= 57
}

pub open spec fn digit_val(c: char) -> int {
    c as int - 48
}

pub open spec fn all_digits(s: Seq<char>) -> bool {
    forall|i: int| 0 <= i < s.len() ==> is_digit(#[trigger] s[i])
}

/// Value of a digit string read in base ten.
pub open spec fn dec_value(s: Seq<char>) -> int
    decreases s.len(),
{
    if s.len() == 0 {
        0
    } else {
        dec_value(s.drop_last()) * 10 + digit_val(s.last())
    }
}

/// What `str::parse::<i32>` accepts: an optional sign, then at least one
/// ASCII digit, with the value inside `i32`'s range.
pub open spec fn spec_parse_i32(s: Seq<char>) -> Option<i32> {
    let signed = s.len() > 0 && (s[0] == '+' || s[0] == '-');
    let digits = if signed {
        s.subrange(1, s.len() as int)
    } else {
        s
    };
    if digits.len() > 0 && all_digits(digits) {
        if signed && s[0] == '-' {
            if dec_value(digits) <= 0x8000_0000 {
                Some((-dec_value(digits)) as i32)
            } else {
                None
            }
        } else {
            if dec_value(digits) <= 0x7fff_ffff {
                Some(dec_value(digits) as i32)
            } else {
                None
            }
        }
    } else {
        None
    }
}

/// `lit` occurs in `s` starting at index `at`.
pub open spec fn match_at(s: Seq<char>, lit: Seq<char>, at: int) -> bool {
    &&& 0 <= at
    &&& at + lit.len() <= s.len()
    &&& forall|k: int| 0 <= k < lit.len() ==> s[at + k] == #[trigger] lit[k]
}

/// Index of the first occurrence of `c` in `s` at or after `from`;
/// `s.len()` if there is none.
pub open spec fn find_char(s: Seq<char>, c: char, from: int) -> int
    decreases s.len() - from + 1,
{
    if from < 0 || from >= s.len() {
        s.len() as int
    } else if s[from] == c {
        from
    } else {
        find_char(s, c, from + 1)
    }
}

proof fn lemma_dec_value_push(s: Seq<char>, c: char)
    ensures
        dec_value(s.push(c)) == 10 * dec_value(s) + digit_val(c),
{
    assert(s.push(c).drop_last() =~= s);
    assert(s.push(c).last() == c);
}

proof fn lemma_dec_value_nonneg(d: Seq<char>)
    requires
        all_digits(d),
    ensures
        dec_value(d) >= 0,
    decreases d.len(),
{
    if d.len() > 0 {
        assert(all_digits(d.drop_last()));
        lemma_dec_value_nonneg(d.drop_last());
    }
}

/// Reading more digits never shrinks the value.
proof fn lemma_dec_value_prefix_le(d: Seq<char>, k: int)
    requires
        0 <= k <= d.len(),
        all_digits(d),
    ensures
        dec_value(d.subrange(0, k)) <= dec_value(d),
    decreases d.len() - k,
{
    if k < d.len() {
        assert(d.subrange(0, k + 1) =~= d.subrange(0, k).push(d[k]));
        lemma_dec_value_push(d.subrange(0, k), d[k]);
        assert(all_digits(d.subrange(0, k)));
        lemma_dec_value_nonneg(d.subrange(0, k));
        lemma_dec_value_prefix_le(d, k + 1);
    } else {
        assert(d.subrange(0, k) =~= d);
    }
}

/// `str::parse::<i32>` on a character-indexed string.
pub fn parse_i32(s: &str) -> (r: Option<i32>)
    ensures
        r == spec_parse_i32(s@),
{
    let n = s.unicode_len();
    if n == 0 {
        return None;
    }
    let c0 = s.get_char(0);
    let neg = c0 == '-';
    let signed = neg || c0 == '+';
    let start: usize = if signed {
        1
    } else {
        0
    };
    let ghost digits: Seq<char> = if signed {
        s@.subrange(1, n as int)
    } else {
        s@
    };
    if n == start {
        return None;
    }
    proof {
        assert(digits =~= s@.subrange(start as int, n as int));
    }
    let mut i: usize = start;
    let mut acc: i64 = 0;
    while i < n
        invariant
            start <= i <= n,
            n == s@.len(),
            start == 0 || start == 1,
            n > start,
            signed <==> start == 1,
            signed ==> (s@[0] == '+' || s@[0] == '-'),
            !signed ==> !(s@[0] == '+' || s@[0] == '-'),
            neg <==> (signed && s@[0] == '-'),
            digits == s@.subrange(start as int, n as int),
            all_digits(s@.subrange(start as int, i as int)),
            acc == dec_value(s@.subrange(start as int, i as int)),
            0 <= acc <= 0x8000_0000,
        decreases n - i,
    {
        let c = s.get_char(i);
        let d = c as u32;
        if !(48 <= d && d <= 57) {
            proof {
                assert(s@.subrange(0, n as int) =~= s@);
                assert(digits[i - start] == s@[i as int]);
                assert(!is_digit(digits[i - start]));
            }
            return None;
        }
        proof {
            assert(s@.subrange(start as int, i + 1) =~= s@.subrange(start as int, i as int).push(
                s@[i as int],
            ));
            lemma_dec_value_push(s@.subrange(start as int, i as int), s@[i as int]);
        }
        acc = acc * 10 + ((d - 48) as i64);
        i = i + 1;
        if acc > 0x8000_0000 {
            proof {
                assert(s@.subrange(0, n as int) =~= s@);
                assert(acc == dec_value(s@.subrange(start as int, i as int)));
                if all_digits(digits) {
                    assert(s@.subrange(start as int, i as int) =~= digits.subrange(
                        0,
                        i - start,
                    ));
                    lemma_dec_value_prefix_le(digits, i - start);
                    assert(dec_value(digits) > 0x8000_0000);
                }
                assert(spec_parse_i32(s@) is None);
            }
            return None;
        }
    }
    proof {
        assert(digits =~= s@.subrange(start as int, n as int));
    }
    if neg {
        Some((-acc) as i32)
    } else {
        if acc > 0x7fff_ffff {
            None
        } else {
            Some(acc as i32)
        }
    }
}

/// Whether `lit` occurs in `s` at character index `at`.
pub fn match_lit(s: &str, lit: &str, at: usize) -> (r: bool)
    ensures
        r == match_at(s@, lit@, at as int),
{
    let n = s.unicode_len();
    let m = lit.unicode_len();
    if at > n || n - at < m {
        return false;
    }
    let mut k: usize = 0;
    while k < m
        invariant
            0 <= k <= m,
            m == lit@.len(),
            n == s@.len(),
            at + m <= n,
            forall|j: int| 0 <= j < k ==> s@[at + j] == #[trigger] lit@[j],
        decreases m - k,
    {
        if s.get_char(at + k) != lit.get_char(k) {
            return false;
        }
        k = k + 1;
    }
    true
}

/// First occurrence of `c` in `s` at or after `from`, as `find_char`.
pub fn find_char_exec(s: &str, c: char, from: usize) -> (r: usize)
    requires
        from <= s@.len(),
    ensures
        r == find_char(s@, c, from as int),
        from <= r <= s@.len(),
{
    let n = s.unicode_len();
    let mut i: usize = from;
    while i < n
        invariant
            from <= i <= n,
            n == s@.len(),
            find_char(s@, c, from as int) == find_char(s@, c, i as int),
        decreases n - i,
    {
        if s.get_char(i) == c {
            return i;
        }
        i = i + 1;
    }
    n
}

} // verus!
