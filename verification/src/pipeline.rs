use vstd::prelude::*;
use vstd::string::*;
use crate::chars::{match_at, match_lit};
use crate::highlight::{Highlight, SpecHighlight};
use crate::block::{spec_process_item, spec_item_warnings, process_item_logged};
use crate::diagnostics::{Warning, SpecWarning};

verus! {

/// The literal line separator between consecutive blocks.
pub open spec fn delim() -> Seq<char> {
    "=========="@
}

/// Position of the first delimiter occurrence at or after `from`; `-1`
/// if none fits.
pub open spec fn find_delim(s: Seq<char>, from: int) -> int
    decreases s.len() - from + 1,
{
    if from < 0 || from + 10 > s.len() {
        -1
    } else if match_at(s, delim(), from) {
        from
    } else {
        find_delim(s, from + 1)
    }
}

/// The document's delimiter-separated chunks, in order: what
/// `str::split` on the delimiter yields.
pub open spec fn spec_split_doc(s: Seq<char>) -> Seq<Seq<char>>
    decreases s.len(),
{
    let p = find_delim(s, 0);
    if 0 <= p && p + 10 <= s.len() {
        seq![s.subrange(0, p)] + spec_split_doc(s.subrange(p + 10, s.len() as int))
    } else {
        seq![s]
    }
}

fn find_delim_exec(s: &str) -> (r: Option<usize>)
    ensures
        r matches Some(p) ==> find_delim(s@, 0) == p && match_at(s@, delim(), p as int) && p + 10
            <= s@.len(),
        r is None ==> find_delim(s@, 0) == -1,
{
    let n = s.unicode_len();
    if n < 10 {
        return None;
    }
    let mut i: usize = 0;
    while i <= n - 10
        invariant
            0 <= i <= n - 9,
            n == s@.len(),
            n >= 10,
            find_delim(s@, 0) == find_delim(s@, i as int),
        decreases n - i,
    {
        if match_lit(s, "==========", i) {
            proof {
                reveal_strlit("==========");
                assert(find_delim(s@, i as int) == i);
            }
            return Some(i);
        }
        proof {
            reveal_strlit("==========");
            assert(find_delim(s@, i as int) == find_delim(s@, i + 1));
        }
        i = i + 1;
    }
    proof {
        assert(find_delim(s@, i as int) == -1);
    }
    None
}

/// The delimiter-separated chunks of the document, as `spec_split_doc`.
pub fn split_document(text: &str) -> (r: Vec<String>)
    ensures
        r.deep_view() == spec_split_doc(text@),
{
    let mut rest = String::from_str(text);
    let mut out: Vec<String> = Vec::new();
    proof {
        assert(out.deep_view() =~= Seq::<Seq<char>>::empty());
    }
    loop
        invariant
            spec_split_doc(text@) == out.deep_view() + spec_split_doc(rest@),
        decreases rest@.len(),
    {
        let s = rest.as_str();
        let n = s.unicode_len();
        let ghost old_dv = out.deep_view();
        match find_delim_exec(s) {
            Some(p) => {
                let piece = String::from_str(s.substring_char(0, p));
                let newrest = String::from_str(s.substring_char(p + 10, n));
                out.push(piece);
                proof {
                    assert(out.deep_view() =~= old_dv + seq![piece@]);
                    assert(old_dv + seq![piece@] + spec_split_doc(newrest@) =~= old_dv + (seq![
                        piece@,
                    ] + spec_split_doc(newrest@)));
                }
                rest = newrest;
            },
            None => {
                out.push(rest);
                proof {
                    assert(out.deep_view() =~= old_dv + seq![s@]);
                }
                return out;
            },
        }
    }
}

/// The records that the document's blocks yield, in source order.
pub open spec fn spec_collect(chunks: Seq<Seq<char>>) -> Seq<SpecHighlight>
    decreases chunks.len(),
{
    if chunks.len() == 0 {
        Seq::empty()
    } else {
        spec_collect(chunks.drop_last()) + (match spec_process_item(chunks.last()) {
            Some(h) => seq![h],
            None => Seq::empty(),
        })
    }
}

/// The whole parse: split on the delimiter, parse every block, keep what
/// parses.
pub open spec fn spec_process_document(text: Seq<char>) -> Seq<SpecHighlight> {
    spec_collect(spec_split_doc(text))
}

/// The diagnostics that the document's blocks produce, in source order.
pub open spec fn spec_collect_warnings(chunks: Seq<Seq<char>>) -> Seq<SpecWarning>
    decreases chunks.len(),
{
    if chunks.len() == 0 {
        Seq::empty()
    } else {
        spec_collect_warnings(chunks.drop_last()) + spec_item_warnings(chunks.last())
    }
}

/// All diagnostics of a whole parse.
pub open spec fn spec_document_warnings(text: Seq<char>) -> Seq<SpecWarning> {
    spec_collect_warnings(spec_split_doc(text))
}

/// Splits the document on the delimiter and parses every block, keeping
/// the records that parse, in source order, together with every
/// diagnostic the blocks produced.
#[verifier::rlimit(60)]
pub fn process_document_logged(text: &str) -> (r: (Vec<Highlight>, Vec<Warning>))
    ensures
        r.0.deep_view() == spec_process_document(text@),
        r.1.deep_view() == spec_document_warnings(text@),
{
    let chunks = split_document(text);
    let ghost cs = spec_split_doc(text@);
    let mut out: Vec<Highlight> = Vec::new();
    let mut warns: Vec<Warning> = Vec::new();
    proof {
        assert(out.deep_view() =~= Seq::<SpecHighlight>::empty());
        assert(warns.deep_view() =~= Seq::<SpecWarning>::empty());
        assert(cs.take(0) =~= Seq::<Seq<char>>::empty());
    }
    let mut i: usize = 0;
    while i < chunks.len()
        invariant
            0 <= i <= chunks@.len(),
            chunks.deep_view() == cs,
            cs == spec_split_doc(text@),
            out.deep_view() == spec_collect(cs.take(i as int)),
            warns.deep_view() == spec_collect_warnings(cs.take(i as int)),
        decreases chunks@.len() - i,
    {
        proof {
            assert(chunks.deep_view()[i as int] == chunks@[i as int]@);
        }
        let ghost old_dv = out.deep_view();
        let ghost old_wdv = warns.deep_view();
        let ghost old_wseq = warns@;
        let chunk = chunks[i].clone();
        let (parsed, mut w) = process_item_logged(chunk);
        let ghost w_dv = w.deep_view();
        let ghost w_seq = w@;
        match parsed {
            Some(h) => {
                out.push(h);
                proof {
                    assert(out.deep_view() =~= old_dv + seq![h@]);
                }
            },
            None => {},
        }
        warns.append(&mut w);
        proof {
            assert forall|k: int|
                0 <= k < warns.deep_view().len() implies warns.deep_view()[k] == (old_wdv
                + w_dv)[k] by {
                if k < old_wseq.len() {
                    assert(warns@[k] == old_wseq[k]);
                } else {
                    assert(warns@[k] == w_seq[k - old_wseq.len()]);
                }
            }
            assert(warns.deep_view() =~= old_wdv + w_dv);
            assert(cs.take(i + 1).drop_last() =~= cs.take(i as int));
            assert(cs.take(i + 1).last() == cs[i as int]);
        }
        i = i + 1;
    }
    proof {
        assert(cs.take(chunks@.len() as int) =~= cs);
    }
    (out, warns)
}

/// Splits the document on the delimiter and parses every block, keeping
/// the records that parse, in source order.
pub fn process_document(text: &str) -> (r: Vec<Highlight>)
    ensures
        r.deep_view() == spec_process_document(text@),
{
    let (r, _) = process_document_logged(text);
    r
}

/// Whether `pattern` is a syntactically valid search pattern.
pub uninterp spec fn regex_ok(pattern: Seq<char>) -> bool;

/// Whether the compiled `pattern` matches somewhere inside `text`.
pub uninterp spec fn regex_match_of(pattern: Seq<char>, text: Seq<char>) -> bool;

/// Relies on `regex::Regex::new` (whether `pattern` compiles) and
/// `regex::Regex::is_match` (whether it matches anywhere in `text`):
/// both outcomes depend on the two strings alone.
#[verifier::external_body]
fn regex_is_match(pattern: &str, text: &str) -> (r: Option<bool>)
    ensures
        r is Some <==> regex_ok(pattern@),
        r matches Some(b) ==> b == regex_match_of(pattern@, text@),
{
    match regex::Regex::new(pattern) {
        Ok(re) => Some(re.is_match(text)),
        Err(_) => None,
    }
}

/// The records whose book title the pattern matches, in order.
pub open spec fn spec_filter(hs: Seq<SpecHighlight>, pat: Seq<char>) -> Seq<SpecHighlight>
    decreases hs.len(),
{
    if hs.len() == 0 {
        Seq::empty()
    } else {
        spec_filter(hs.drop_last(), pat) + (if regex_match_of(pat, hs.last().book) {
            seq![hs.last()]
        } else {
            Seq::empty()
        })
    }
}

/// Keeps the records whose book title the pattern matches. Fails exactly
/// when the pattern is invalid and there was a record to test it on (the
/// pattern is compiled once per record, so an empty input never fails).
#[verifier::loop_isolation(false)]
#[verifier::rlimit(60)]
pub fn filter_highlights(hs: Vec<Highlight>, pattern: &str) -> (r: Option<Vec<Highlight>>)
    ensures
        r matches Some(v) ==> v.deep_view() == spec_filter(hs.deep_view(), pattern@) && (regex_ok(
            pattern@,
        ) || hs@.len() == 0),
        r is None ==> !regex_ok(pattern@) && hs@.len() > 0,
{
    let ghost all = hs.deep_view();
    let ghost n0 = hs@.len();
    let mut rest = hs;
    let mut out: Vec<Highlight> = Vec::new();
    let ghost mut i: int = 0;
    proof {
        assert(out.deep_view() =~= Seq::<SpecHighlight>::empty());
        assert(all.take(0) =~= Seq::<SpecHighlight>::empty());
        assert(rest.deep_view() =~= all.subrange(0, all.len() as int));
    }
    while rest.len() > 0
        invariant
            0 <= i <= all.len(),
            i + rest@.len() == all.len(),
            n0 == all.len(),
            rest.deep_view() == all.subrange(i, all.len() as int),
            out.deep_view() == spec_filter(all.take(i), pattern@),
            i > 0 ==> regex_ok(pattern@),
        decreases rest@.len(),
    {
        let ghost old_rest_dv = rest.deep_view();
        let ghost old_rest_seq = rest@;
        let ghost old_dv = out.deep_view();
        let h = rest.remove(0);
        proof {
            assert(h@ == old_rest_dv[0]);
            assert(h@ == all[i]);
            assert(rest@ =~= old_rest_seq.subrange(1, old_rest_seq.len() as int));
            assert forall|k: int| 0 <= k < rest@.len() implies rest.deep_view()[k] == all.subrange(
                i + 1,
                all.len() as int,
            )[k] by {
                assert(rest@[k] == old_rest_seq[k + 1]);
                assert(old_rest_dv[k + 1] == all.subrange(i, all.len() as int)[k + 1]);
            }
            assert(rest.deep_view() =~= all.subrange(i + 1, all.len() as int));
        }
        match regex_is_match(pattern, h.book.as_str()) {
            Some(keep) => {
                if keep {
                    out.push(h);
                    proof {
                        assert(out.deep_view() =~= old_dv + seq![all[i]]);
                    }
                }
            },
            None => {
                return None;
            },
        }
        proof {
            assert(all.take(i + 1).drop_last() =~= all.take(i));
            assert(all.take(i + 1).last() == all[i]);
            i = i + 1;
        }
    }
    proof {
        assert(all.take(i) =~= all);
    }
    Some(out)
}

/// What the whole run yields for a document and an optional title filter.
pub open spec fn spec_pipeline(text: Seq<char>, pattern: Option<Seq<char>>) -> Seq<SpecHighlight> {
    match pattern {
        Some(p) => spec_filter(spec_process_document(text), p),
        None => spec_process_document(text),
    }
}

/// Everything a run's outcome satisfies: it fails exactly when a filter
/// pattern is invalid and a record was there to test it on, and a
/// successful run yields what the document and filter determine.
pub open spec fn spec_run_outcome_ok(
    text: Seq<char>,
    pattern: Option<Seq<char>>,
    r: Option<Seq<SpecHighlight>>,
) -> bool {
    match r {
        Some(v) => v == spec_pipeline(text, pattern) && (match pattern {
            Some(p) => regex_ok(p) || spec_process_document(text).len() == 0,
            None => true,
        }),
        None => match pattern {
            Some(p) => !regex_ok(p) && spec_process_document(text).len() > 0,
            None => false,
        },
    }
}

/// Parses the document and applies the optional title filter. Fails
/// exactly when a filter pattern is invalid and a record was there to
/// test it on.
pub fn run_pipeline_logged(text: &str, pattern: Option<&str>) -> (r: (
    Option<Vec<Highlight>>,
    Vec<Warning>,
))
    ensures
        ({
            let pat = match pattern {
                Some(p) => Some(p@),
                None => None::<Seq<char>>,
            };
            match r.0 {
                Some(v) => spec_run_outcome_ok(text@, pat, Some(v.deep_view())),
                None => spec_run_outcome_ok(text@, pat, None::<Seq<SpecHighlight>>),
            }
        }),
        r.1.deep_view() == spec_document_warnings(text@),
{
    let (records, warns) = process_document_logged(text);
    proof {
        assert(records.deep_view().len() == records@.len());
    }
    let filtered = match pattern {
        Some(p) => filter_highlights(records, p),
        None => Some(records),
    };
    (filtered, warns)
}

/// Parses the document and applies the optional title filter, without the
/// diagnostics.
pub fn run_pipeline(text: &str, pattern: Option<&str>) -> (r: Option<Vec<Highlight>>)
    ensures
        ({
            let pat = match pattern {
                Some(p) => Some(p@),
                None => None::<Seq<char>>,
            };
            match r {
                Some(v) => spec_run_outcome_ok(text@, pat, Some(v.deep_view())),
                None => spec_run_outcome_ok(text@, pat, None::<Seq<SpecHighlight>>),
            }
        }),
{
    let (r, _) = run_pipeline_logged(text, pattern);
    r
}

/// No more records come out of a document than it has delimiter-separated
/// blocks, and the counts are equal exactly when every block yields a
/// record.
pub proof fn lemma_records_at_most_blocks(text: Seq<char>)
    ensures
        spec_process_document(text).len() <= spec_split_doc(text).len(),
        (spec_process_document(text).len() == spec_split_doc(text).len()) <==> (forall|k: int|
            0 <= k < spec_split_doc(text).len() ==> spec_process_item(
                #[trigger] spec_split_doc(text)[k],
            ) is Some),
{
    lemma_collect_counts(spec_split_doc(text));
}

proof fn lemma_collect_counts(chunks: Seq<Seq<char>>)
    ensures
        spec_collect(chunks).len() <= chunks.len(),
        (spec_collect(chunks).len() == chunks.len()) <==> (forall|k: int|
            0 <= k < chunks.len() ==> spec_process_item(#[trigger] chunks[k]) is Some),
    decreases chunks.len(),
{
    if chunks.len() > 0 {
        let pre = chunks.drop_last();
        lemma_collect_counts(pre);
        assert(forall|k: int| 0 <= k < pre.len() ==> pre[k] == #[trigger] chunks[k]);
        if spec_collect(chunks).len() == chunks.len() {
            assert(spec_collect(pre).len() == pre.len());
            assert(spec_process_item(chunks.last()) is Some);
            assert forall|k: int|
                0 <= k < chunks.len() implies spec_process_item(
                #[trigger] chunks[k],
            ) is Some by {
                if k < chunks.len() - 1 {
                    assert(chunks[k] == pre[k]);
                } else {
                    assert(chunks[k] == chunks.last());
                }
            }
        }
        if forall|k: int|
            0 <= k < chunks.len() ==> spec_process_item(#[trigger] chunks[k]) is Some {
            assert forall|k: int|
                0 <= k < pre.len() implies spec_process_item(#[trigger] pre[k]) is Some by {
                assert(pre[k] == chunks[k]);
            }
            assert(spec_collect(pre).len() == pre.len());
            assert(spec_process_item(chunks.last()) is Some);
        }
    }
}

/// A filter pattern that matches no book keeps nothing: the output is
/// empty rather than an error.
pub proof fn lemma_filter_no_match_empty(hs: Seq<SpecHighlight>, pat: Seq<char>)
    requires
        forall|k: int| 0 <= k < hs.len() ==> !regex_match_of(pat, (#[trigger] hs[k]).book),
    ensures
        spec_filter(hs, pat) == Seq::<SpecHighlight>::empty(),
    decreases hs.len(),
{
    if hs.len() > 0 {
        assert(forall|k: int|
            0 <= k < hs.len() - 1 ==> #[trigger] hs.drop_last()[k] == hs[k]);
        lemma_filter_no_match_empty(hs.drop_last(), pat);
        assert(!regex_match_of(pat, hs.last().book));
        assert(spec_filter(hs, pat) =~= Seq::<SpecHighlight>::empty());
    }
}

/// Re-running the pipeline on the same document and filter yields the
/// same outcome: two runs both fail, or both succeed with the same
/// records. The outcome is a function of the two inputs alone, with no
/// hidden state or clock-of-run dependency.
pub proof fn lemma_pipeline_deterministic(
    text: Seq<char>,
    pattern: Option<Seq<char>>,
    r1: Option<Seq<SpecHighlight>>,
    r2: Option<Seq<SpecHighlight>>,
)
    requires
        spec_run_outcome_ok(text, pattern, r1),
        spec_run_outcome_ok(text, pattern, r2),
    ensures
        r1 == r2,
{
}

} // verus!
