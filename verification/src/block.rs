use vstd::prelude::*;
use vstd::string::*;
use crate::chars::{find_char, find_char_exec};
use crate::highlight::{Highlight, SpecHighlight};
use crate::header::{spec_parse_first_line, parse_first_line, lemma_book_nonempty};
use crate::metadata::{spec_parse_second_line, spec_line_warnings, parse_second_line_logged};
use crate::diagnostics::{Warning, SpecWarning};

verus! {

/// One trailing carriage return goes with the line feed it preceded.
pub open spec fn strip_cr(l: Seq<char>) -> Seq<char> {
    if l.len() > 0 && l[l.len() - 1] == '\r' {
        l.drop_last()
    } else {
        l
    }
}

/// Leading byte-order marks are stray encoding artifacts.
pub open spec fn strip_bom(l: Seq<char>) -> Seq<char>
    decreases l.len(),
{
    if l.len() > 0 && l[0] == '\u{feff}' {
        strip_bom(l.subrange(1, l.len() as int))
    } else {
        l
    }
}

/// The usable lines of one block: the text is split at line feeds, each
/// line is freed of a `\r` that preceded its line feed and of leading
/// byte-order marks, and empty lines are dropped.
pub open spec fn block_lines(s: Seq<char>) -> Seq<Seq<char>>
    decreases s.len(),
{
    let p = find_char(s, '\n', 0);
    if 0 <= p < s.len() {
        let line = strip_bom(strip_cr(s.subrange(0, p)));
        let rest = block_lines(s.subrange(p + 1, s.len() as int));
        if line.len() > 0 {
            seq![line] + rest
        } else {
            rest
        }
    } else {
        let line = strip_bom(s);
        if line.len() > 0 {
            seq![line]
        } else {
            Seq::empty()
        }
    }
}

/// What one block yields: nothing unless at least three usable lines
/// remain (header, metadata, quote) and both line parses succeed; the
/// third line is the quote, taken verbatim.
pub open spec fn spec_process_item(item: Seq<char>) -> Option<SpecHighlight> {
    let ls = block_lines(item);
    if ls.len() < 3 {
        None
    } else {
        match spec_parse_first_line(ls[0]) {
            Some(ba) => match spec_parse_second_line(ls[1]) {
                Some(pld) => Some(
                    SpecHighlight {
                        book: ba.0,
                        author: ba.1,
                        quote: ls[2],
                        page: pld.0,
                        location: pld.1,
                        date_added: pld.2,
                    },
                ),
                None => None,
            },
            None => None,
        }
    }
}

/// The diagnostics one block produces: those of its metadata line, once
/// enough usable lines remain for the parse to reach it.
pub open spec fn spec_item_warnings(item: Seq<char>) -> Seq<SpecWarning> {
    let ls = block_lines(item);
    if ls.len() < 3 {
        Seq::empty()
    } else if spec_parse_first_line(ls[0]) is None {
        Seq::empty()
    } else {
        spec_line_warnings(ls[1])
    }
}

/// Block lines are non-empty: the empty ones were dropped.
proof fn lemma_block_lines_nonempty(s: Seq<char>)
    ensures
        forall|k: int| 0 <= k < block_lines(s).len() ==> (#[trigger] block_lines(s)[k]).len() > 0,
    decreases s.len(),
{
    let p = find_char(s, '\n', 0);
    if 0 <= p < s.len() {
        let rest = block_lines(s.subrange(p + 1, s.len() as int));
        lemma_block_lines_nonempty(s.subrange(p + 1, s.len() as int));
        let line = strip_bom(strip_cr(s.subrange(0, p)));
        if line.len() > 0 {
            assert forall|k: int|
                0 <= k < block_lines(s).len() implies (#[trigger] block_lines(s)[k]).len()
                > 0 by {
                if k > 0 {
                    assert(block_lines(s)[k] == rest[k - 1]);
                }
            }
        }
    }
}

/// Every emitted record carries a non-empty book title (the author field
/// may be the `"Unknown"` default, but the book never vanishes).
pub proof fn lemma_record_book_nonempty(item: Seq<char>)
    ensures
        spec_process_item(item) matches Some(h) ==> h.book.len() > 0,
{
    let ls = block_lines(item);
    if ls.len() >= 3 {
        lemma_block_lines_nonempty(item);
        assert(ls[0].len() > 0);
        lemma_book_nonempty(ls[0]);
    }
}

/// Cuts one raw line down to its usable text: without the trailing
/// carriage return (only for a line that a line feed ended) and without
/// leading byte-order marks.
fn clean_segment(raw: &str, had_line_feed: bool) -> (r: String)
    ensures
        had_line_feed ==> r@ == strip_bom(strip_cr(raw@)),
        !had_line_feed ==> r@ == strip_bom(raw@),
{
    let n = raw.unicode_len();
    let e: usize = if had_line_feed && n > 0 && raw.get_char(n - 1) == '\r' {
        n - 1
    } else {
        n
    };
    let ghost target: Seq<char> = if had_line_feed {
        strip_cr(raw@)
    } else {
        raw@
    };
    proof {
        assert(target =~= raw@.subrange(0, e as int));
    }
    let mut k: usize = 0;
    while k < e && raw.get_char(k) == '\u{feff}'
        invariant
            0 <= k <= e <= n,
            n == raw@.len(),
            target == raw@.subrange(0, e as int),
            strip_bom(target) == strip_bom(raw@.subrange(k as int, e as int)),
        decreases e - k,
    {
        proof {
            assert(raw@.subrange(k as int, e as int).subrange(
                1,
                e - k,
            ) =~= raw@.subrange(k + 1, e as int));
        }
        k = k + 1;
    }
    String::from_str(raw.substring_char(k, e))
}

/// The usable lines of one block, as `block_lines`.
pub fn split_block_lines(item: &str) -> (r: Vec<String>)
    ensures
        r.deep_view() == block_lines(item@),
{
    let mut rest = String::from_str(item);
    let mut out: Vec<String> = Vec::new();
    proof {
        assert(out.deep_view() =~= Seq::<Seq<char>>::empty());
    }
    loop
        invariant
            block_lines(item@) == out.deep_view() + block_lines(rest@),
        decreases rest@.len(),
    {
        let s = rest.as_str();
        let n = s.unicode_len();
        let p = find_char_exec(s, '\n', 0);
        let ghost old_dv = out.deep_view();
        if p < n {
            let line = clean_segment(s.substring_char(0, p), true);
            let newrest = String::from_str(s.substring_char(p + 1, n));
            if line.as_str().unicode_len() > 0 {
                out.push(line);
                proof {
                    assert(out.deep_view() =~= old_dv + seq![line@]);
                    assert(old_dv + seq![line@] + block_lines(newrest@) =~= old_dv + (seq![line@]
                        + block_lines(newrest@)));
                }
            }
            rest = newrest;
        } else {
            let line = clean_segment(s, false);
            if line.as_str().unicode_len() > 0 {
                out.push(line);
                proof {
                    assert(out.deep_view() =~= old_dv + seq![line@]);
                }
            } else {
                proof {
                    assert(out.deep_view() + block_lines(s@) =~= out.deep_view());
                }
            }
            return out;
        }
    }
}

/// Parses one delimiter-separated block into a highlight record, or drops
/// it when too few usable lines remain or a line parse fails, together
/// with the diagnostics the parse produced.
pub fn process_item_logged(item: String) -> (r: (Option<Highlight>, Vec<Warning>))
    ensures
        (match r.0 {
            Some(h) => spec_process_item(item@) == Some(h@),
            None => spec_process_item(item@) is None,
        }),
        r.1.deep_view() == spec_item_warnings(item@),
{
    let lines = split_block_lines(item.as_str());
    if lines.len() < 3 {
        let w: Vec<Warning> = Vec::new();
        proof {
            assert(w.deep_view() =~= Seq::<SpecWarning>::empty());
        }
        return (None, w);
    }
    proof {
        assert(lines.deep_view()[0] == lines@[0]@);
        assert(lines.deep_view()[1] == lines@[1]@);
        assert(lines.deep_view()[2] == lines@[2]@);
    }
    let first = lines[0].clone();
    let (book, author) = match parse_first_line(first) {
        Some(p) => p,
        None => {
            let w: Vec<Warning> = Vec::new();
            proof {
                assert(w.deep_view() =~= Seq::<SpecWarning>::empty());
            }
            return (None, w);
        },
    };
    let second = lines[1].clone();
    let (parsed, warns) = parse_second_line_logged(second);
    let (page, location, date_added) = match parsed {
        Some(x) => x,
        None => {
            return (None, warns);
        },
    };
    let quote = lines[2].clone();
    (Some(Highlight { book, author, quote, page, location, date_added }), warns)
}

/// Parses one delimiter-separated block into a highlight record, or drops
/// it when too few usable lines remain or a line parse fails.
pub fn process_item(item: String) -> (r: Option<Highlight>)
    ensures
        match r {
            Some(h) => spec_process_item(item@) == Some(h@),
            None => spec_process_item(item@) is None,
        },
{
    let (r, _) = process_item_logged(item);
    r
}

} // verus!
