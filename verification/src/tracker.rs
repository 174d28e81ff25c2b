//! Consensus across agents: findings about overlapping lines or with
//! similar wording are clustered per place in the code, agreement is counted
//! per cluster, and each cluster yields one finding.
use vstd::prelude::*;
use crate::report::{
    clone_evidence, clone_opt_str, confidence_rank, confidence_rank_spec, evidence_models,
    finding_models, opt_str, raw_models, severity_rank, severity_rank_spec, strs, Confidence,
    ConsensusMap, ConsensusStatus, EvidenceAnchor, EvidenceModel, Finding, FindingKey,
    FindingModel, LineSpan, RawFinding, RawFindingModel, Severity,
};
use crate::reference::{components, components_eq, path_components};
use crate::order::{chars_lt, compare_chars, Order3};
use crate::text::{
    chars_eq, chars_of, decimal, str_eq, has_prefix, is_alphanumeric, lines, lines_of, push_decimal,
    push_str, push_string, seqs, slice_range, spec_is_alphanumeric, spec_lowercase, starts_with,
    string_of, to_lowercase, trim, trim_of, words, words_of,
};

verus! {

broadcast use vstd::seq_lib::group_seq_properties, vstd::set::group_set_axioms;

// ---------------------------------------------------------------------
// Span overlap
// ---------------------------------------------------------------------

/// Two spans overlap when they share lines and the shared lines are at least
/// half of the shorter span.
pub open spec fn spans_overlap_spec(a: crate::report::LineSpan, b: crate::report::LineSpan) -> bool {
    let lo = if a.start >= b.start {
        a.start
    } else {
        b.start
    };
    let hi = if a.end <= b.end {
        a.end
    } else {
        b.end
    };
    let len_a = a.end - a.start + 1;
    let len_b = b.end - b.start + 1;
    let shorter = if len_a <= len_b {
        len_a
    } else {
        len_b
    };
    hi >= lo && 2 * (hi - lo + 1) >= shorter
}

pub fn spans_overlap(a: &crate::report::LineSpan, b: &crate::report::LineSpan) -> (r: bool)
    ensures
        r == spans_overlap_spec(*a, *b),
{
    let lo: u64 = if a.start >= b.start {
        a.start as u64
    } else {
        b.start as u64
    };
    let hi: u64 = if a.end <= b.end {
        a.end as u64
    } else {
        b.end as u64
    };
    if hi < lo {
        return false;
    }
    let overlap: u64 = hi - lo + 1;
    let len_a: u64 = a.end as u64 - a.start as u64 + 1;
    let len_b: u64 = b.end as u64 - b.start as u64 + 1;
    let shorter: u64 = if len_a <= len_b {
        len_a
    } else {
        len_b
    };
    2 * overlap >= shorter
}

// ---------------------------------------------------------------------
// Message similarity
// ---------------------------------------------------------------------

pub open spec fn trim_alnum_start(s: Seq<char>) -> Seq<char>
    decreases s.len(),
{
    if s.len() > 0 && !spec_is_alphanumeric(s[0]) {
        trim_alnum_start(s.drop_first())
    } else {
        s
    }
}

pub open spec fn trim_alnum_end(s: Seq<char>) -> Seq<char>
    decreases s.len(),
{
    if s.len() > 0 && !spec_is_alphanumeric(s.last()) {
        trim_alnum_end(s.drop_last())
    } else {
        s
    }
}

/// A word with non-alphanumeric characters trimmed from both ends, lowercased.
pub open spec fn norm_token(w: Seq<char>) -> Seq<char> {
    spec_lowercase(trim_alnum_end(trim_alnum_start(w)))
}

/// The distinct non-empty normalized words.
pub open spec fn tokens_of_words(ws: Seq<Seq<char>>) -> Set<Seq<char>>
    decreases ws.len(),
{
    if ws.len() == 0 {
        Set::empty()
    } else {
        let s = tokens_of_words(ws.drop_last());
        let t = norm_token(ws.last());
        if t.len() > 0 {
            s.insert(t)
        } else {
            s
        }
    }
}

pub open spec fn token_set(s: Seq<char>) -> Set<Seq<char>> {
    tokens_of_words(words_of(s))
}

/// Two messages are similar when both have words and the words they share
/// are at least 35% of all their distinct words.
pub open spec fn message_similar_spec(a: Seq<char>, b: Seq<char>) -> bool {
    let x = token_set(a);
    let y = token_set(b);
    x.len() > 0 && y.len() > 0 && 100 * x.intersect(y).len() >= 35 * x.union(y).len()
}

fn trim_non_alnum(w: &[char]) -> (r: Vec<char>)
    ensures
        r@ == trim_alnum_end(trim_alnum_start(w@)),
{
    let mut a: usize = 0;
    assert(w@.subrange(0, w@.len() as int) =~= w@);
    while a < w.len() && !is_alphanumeric(w[a])
        invariant
            a <= w@.len(),
            trim_alnum_start(w@) == trim_alnum_start(w@.subrange(a as int, w@.len() as int)),
        decreases w.len() - a,
    {
        assert(w@.subrange(a as int, w@.len() as int).drop_first() =~= w@.subrange(a + 1, w@.len() as int));
        a += 1;
    }
    let ghost s = w@.subrange(a as int, w@.len() as int);
    assert(trim_alnum_start(w@) == s);
    let mut b: usize = w.len();
    assert(s.subrange(0, (b - a) as int) =~= s);
    while b > a && !is_alphanumeric(w[b - 1])
        invariant
            a <= b <= w@.len(),
            s == w@.subrange(a as int, w@.len() as int),
            trim_alnum_end(s) == trim_alnum_end(w@.subrange(a as int, b as int)),
        decreases b - a,
    {
        assert(w@.subrange(a as int, b as int).drop_last() =~= w@.subrange(a as int, b - 1));
        b -= 1;
    }
    slice_range(w, a, b)
}

fn norm_token_exec(w: &[char]) -> (r: Vec<char>)
    ensures
        r@ == norm_token(w@),
{
    let t = trim_non_alnum(w);
    let ts = string_of(t.as_slice());
    let low = to_lowercase(ts.as_str());
    chars_of(low.as_str())
}

fn seq_has(v: &Vec<Vec<char>>, x: &[char]) -> (r: bool)
    ensures
        r == seqs(v@).contains(x@),
{
    let mut i: usize = 0;
    while i < v.len()
        invariant
            i <= v@.len(),
            forall|k: int| 0 <= k < i ==> v@[k]@ != x@,
        decreases v.len() - i,
    {
        if chars_eq(v[i].as_slice(), x) {
            assert(seqs(v@)[i as int] == x@);
            return true;
        }
        i += 1;
    }
    assert(forall|k: int| 0 <= k < v@.len() ==> seqs(v@)[k] != x@);
    false
}

/// The distinct tokens of `s`, each once.
fn distinct_tokens(s: &str) -> (r: Vec<Vec<char>>)
    ensures
        seqs(r@).no_duplicates(),
        seqs(r@).to_set() == token_set(s@),
{
    let sc = chars_of(s);
    let ws = words(sc.as_slice());
    let ghost wm = words_of(s@);
    let mut out: Vec<Vec<char>> = Vec::new();
    let mut i: usize = 0;
    assert(seqs(out@).to_set() =~= Set::empty());
    while i < ws.len()
        invariant
            i <= ws@.len(),
            seqs(ws@) == wm,
            seqs(out@).no_duplicates(),
            seqs(out@).to_set() == tokens_of_words(wm.take(i as int)),
        decreases ws.len() - i,
    {
        assert(wm.take(i + 1).drop_last() =~= wm.take(i as int));
        assert(wm.take(i + 1).last() == ws@[i as int]@);
        let t = norm_token_exec(ws[i].as_slice());
        if t.len() > 0 && !seq_has(&out, t.as_slice()) {
            let ghost before = seqs(out@);
            out.push(t);
            proof {
                assert(seqs(out@) =~= before.push(t@));
                before.lemma_push_to_set_commute(t@);
            }
        } else if t.len() > 0 {
            assert(seqs(out@).to_set().contains(t@));
            assert(seqs(out@).to_set().insert(t@) =~= seqs(out@).to_set());
        }
        i += 1;
    }
    assert(wm.take(ws@.len() as int) =~= wm);
    out
}

pub fn message_similar(a: &str, b: &str) -> (r: bool)
    ensures
        r == message_similar_spec(a@, b@),
{
    let ta = distinct_tokens(a);
    let tb = distinct_tokens(b);
    let ghost x = token_set(a@);
    let ghost y = token_set(b@);
    proof {
        seqs(ta@).unique_seq_to_set();
        seqs(tb@).unique_seq_to_set();
    }
    if ta.len() == 0 || tb.len() == 0 {
        return false;
    }
    let mut common: Vec<Vec<char>> = Vec::new();
    let mut i: usize = 0;
    assert(seqs(common@).to_set() =~= Set::empty());
    while i < ta.len()
        invariant
            i <= ta@.len(),
            seqs(ta@).no_duplicates(),
            seqs(ta@).to_set() == x,
            seqs(tb@).to_set() == y,
            seqs(common@).no_duplicates(),
            seqs(common@).to_set() == seqs(ta@).take(i as int).to_set().intersect(y),
            forall|k: int| 0 <= k < common@.len() ==> seqs(ta@).take(i as int).contains(#[trigger] seqs(common@)[k]),
            common@.len() <= i,
        decreases ta.len() - i,
    {
        let ghost pre = seqs(ta@).take(i as int);
        assert(seqs(ta@).take(i + 1) =~= pre.push(ta@[i as int]@));
        proof {
            pre.lemma_push_to_set_commute(ta@[i as int]@);
        }
        if seq_has(&tb, ta[i].as_slice()) {
            let ghost before = seqs(common@);
            proof {
                assert(!before.contains(ta@[i as int]@)) by {
                    if before.contains(ta@[i as int]@) {
                        let k = choose|k: int| 0 <= k < before.len() && before[k] == ta@[i as int]@;
                        assert(pre.contains(before[k]));
                        let j = choose|j: int| 0 <= j < pre.len() && pre[j] == before[k];
                        assert(seqs(ta@)[j] == seqs(ta@)[i as int]);
                    }
                }
            }
            common.push(ta[i].clone());
            proof {
                assert(seqs(common@) =~= before.push(ta@[i as int]@));
                before.lemma_push_to_set_commute(ta@[i as int]@);
                assert(seqs(common@).to_set() =~= seqs(ta@).take(i + 1).to_set().intersect(y));
            }
        } else {
            proof {
                assert(seqs(common@).to_set() =~= seqs(ta@).take(i + 1).to_set().intersect(y));
            }
        }
        i += 1;
    }
    proof {
        assert(seqs(ta@).take(ta@.len() as int) =~= seqs(ta@));
        seqs(common@).unique_seq_to_set();
        vstd::set_lib::lemma_set_intersect_union_lens(x, y);
    }
    let inter: u128 = common.len() as u128;
    let union: u128 = ta.len() as u128 + tb.len() as u128 - inter;
    100 * inter >= 35 * union
}

} // verus!

verus! {

// ---------------------------------------------------------------------
// Evidence quoted from the diff when an agent gave none
// ---------------------------------------------------------------------

/// The number of bytes `c` takes in UTF-8.
pub open spec fn utf8_width(c: char) -> nat {
    if (c as u32) < 0x80 {
        1
    } else if (c as u32) < 0x800 {
        2
    } else if (c as u32) < 0x10000 {
        3
    } else {
        4
    }
}

/// The length in bytes of the UTF-8 encoding of `s` (what `str::len` gives).
pub open spec fn utf8_len(s: Seq<char>) -> nat
    decreases s.len(),
{
    if s.len() == 0 {
        0
    } else {
        utf8_len(s.drop_last()) + utf8_width(s.last())
    }
}

pub(crate) fn utf8_width_exec(c: char) -> (r: u128)
    ensures
        r == utf8_width(c),
{
    let v = c as u32;
    if v < 0x80 {
        1
    } else if v < 0x800 {
        2
    } else if v < 0x10000 {
        3
    } else {
        4
    }
}

pub open spec fn is_body_line(raw: Seq<char>) -> bool {
    (starts_with(raw, seq!['+']) || starts_with(raw, seq!['-']) || starts_with(raw, seq![' ']))
        && !starts_with(raw, seq!['+', '+', '+']) && !starts_with(raw, seq!['-', '-', '-'])
}

/// Capture state: the text captured so far for the target file, and whether
/// enough (180 bytes) has been captured to stop.
pub type CaptureState = (Option<Seq<char>>, bool);

/// One diff line: the target's `+++ b/` header starts a capture, a file
/// header ends it, and while capturing each added, removed or context line is
/// appended (without its newline) until 180 bytes are held.
pub open spec fn capture_step(st: CaptureState, raw: Seq<char>, target: Seq<char>) -> CaptureState {
    if st.1 {
        st
    } else if raw == target {
        (Some(Seq::<char>::empty()), false)
    } else if starts_with(raw, "diff --git "@) {
        (None, false)
    } else {
        match st.0 {
            Some(buf) => if is_body_line(raw) {
                let nb = buf + raw;
                (Some(nb), utf8_len(nb) >= 180)
            } else {
                st
            },
            None => st,
        }
    }
}

pub open spec fn capture_scan(ls: Seq<Seq<char>>, target: Seq<char>) -> CaptureState
    decreases ls.len(),
{
    if ls.len() == 0 {
        (None, false)
    } else {
        capture_step(capture_scan(ls.drop_last(), target), ls.last(), target)
    }
}

/// A quote from the diff for a finding at `file:line` that cited no
/// evidence: the first captured line of that file's hunks, trimmed; none
/// when the finding has no file or line, or nothing was captured.
pub open spec fn fallback_evidence_spec(diff: Seq<char>, file: Option<Seq<char>>, line: Option<u32>) -> Seq<EvidenceModel> {
    match (file, line) {
        (Some(f), Some(l)) => {
            let st = capture_scan(lines_of(diff), "+++ b/"@ + f);
            let buf = match st.0 {
                Some(b) => b,
                None => Seq::<char>::empty(),
            };
            let first = if lines_of(buf).len() > 0 {
                lines_of(buf)[0]
            } else {
                Seq::<char>::empty()
            };
            let quote = trim_of(first);
            if quote.len() == 0 {
                seq![]
            } else {
                seq![EvidenceModel { location: f + ":"@ + decimal(l as nat), quote }]
            }
        },
        _ => seq![],
    }
}

pub fn fallback_evidence_from_diff(diff: &str, file: &Option<String>, line_start: Option<u32>) -> (r: Vec<EvidenceAnchor>)
    ensures
        evidence_models(r@) == fallback_evidence_spec(diff@, opt_str(*file), line_start),
{
    let (f, line) = match (file, line_start) {
        (Some(f), Some(l)) => (f, l),
        _ => {
            let empty: Vec<EvidenceAnchor> = Vec::new();
            assert(evidence_models(empty@) =~= seq![]);
            return empty;
        },
    };
    let mut target = String::new();
    push_str(&mut target, "+++ b/");
    push_string(&mut target, f);
    let tc = chars_of(target.as_str());
    let dc = chars_of(diff);
    let ls = lines(dc.as_slice());
    let ghost lm = lines_of(diff@);
    let header = chars_of("diff --git ");
    let mut capture: Option<Vec<char>> = None;
    let mut bytes: u128 = 0;
    let mut stopped = false;
    let mut i: usize = 0;
    while i < ls.len()
        invariant
            i <= ls@.len(),
            seqs(ls@) == lm,
            tc@ == "+++ b/"@ + f@,
            header@ == "diff --git "@,
            capture_scan(lm.take(i as int), tc@) == ((match capture {
                Some(c) => Some(c@),
                None => None::<Seq<char>>,
            }), stopped),
            capture is Some ==> bytes == utf8_len(capture.unwrap()@),
            capture is Some ==> bytes < 180 || stopped,
        decreases ls.len() - i,
    {
        assert(lm.take(i + 1).drop_last() =~= lm.take(i as int));
        assert(lm.take(i + 1).last() == ls@[i as int]@);
        let raw = ls[i].as_slice();
        if !stopped {
            if chars_eq(raw, tc.as_slice()) {
                capture = Some(Vec::new());
                bytes = 0;
            } else if has_prefix(raw, header.as_slice()) {
                capture = None;
            } else {
                match capture {
                    Some(mut buf) => {
                        let body = (raw.len() > 0 && (raw[0] == '+' || raw[0] == '-' || raw[0] == ' '))
                            && !(raw.len() >= 3 && raw[0] == '+' && raw[1] == '+' && raw[2] == '+')
                            && !(raw.len() >= 3 && raw[0] == '-' && raw[1] == '-' && raw[2] == '-');
                        proof {
                            assert(seq!['+'].len() == 1 && seq!['+'][0] == '+');
                            assert(seq!['-'].len() == 1 && seq!['-'][0] == '-');
                            assert(seq![' '].len() == 1 && seq![' '][0] == ' ');
                            assert(starts_with(raw@, seq!['+']) == (raw@.len() > 0 && raw@[0] == '+')) by {
                                let one = seq![raw@[0]]; assert(one.len() == 1 && one[0] == raw@[0]); if raw@.len() > 0 { assert(raw@.subrange(0, 1) =~= one); }
                            }
                            assert(starts_with(raw@, seq!['-']) == (raw@.len() > 0 && raw@[0] == '-')) by {
                                let one = seq![raw@[0]]; assert(one.len() == 1 && one[0] == raw@[0]); if raw@.len() > 0 { assert(raw@.subrange(0, 1) =~= one); }
                            }
                            assert(starts_with(raw@, seq![' ']) == (raw@.len() > 0 && raw@[0] == ' ')) by {
                                let one = seq![raw@[0]]; assert(one.len() == 1 && one[0] == raw@[0]); if raw@.len() > 0 { assert(raw@.subrange(0, 1) =~= one); }
                            }
                            assert(starts_with(raw@, seq!['+', '+', '+']) == (raw@.len() >= 3 && raw@[0] == '+' && raw@[1] == '+' && raw@[2] == '+')) by {
                                if raw@.len() >= 3 { assert(raw@.subrange(0, 3) =~= seq![raw@[0], raw@[1], raw@[2]]); }
                            }
                            assert(starts_with(raw@, seq!['-', '-', '-']) == (raw@.len() >= 3 && raw@[0] == '-' && raw@[1] == '-' && raw@[2] == '-')) by {
                                if raw@.len() >= 3 { assert(raw@.subrange(0, 3) =~= seq![raw@[0], raw@[1], raw@[2]]); }
                            }
                        }
                        if body {
                            let mut j: usize = 0;
                            let ghost b0 = buf@;
                            let ghost n0 = bytes;
                            while j < raw.len()
                                invariant
                                    j <= raw@.len(),
                                    buf@ == b0 + raw@.take(j as int),
                                    bytes as int == n0 + utf8_len(raw@.take(j as int)),
                                    n0 == utf8_len(b0),
                                    n0 < 180,
                                    bytes <= n0 + 4 * j,
                                    raw@.len() <= usize::MAX,
                                decreases raw.len() - j,
                            {
                                proof {
                                    assert(raw@.take(j + 1).drop_last() =~= raw@.take(j as int));
                                    assert((b0 + raw@.take(j + 1)).drop_last() =~= b0 + raw@.take(j as int));
                                }
                                buf.push(raw[j]);
                                bytes = bytes + utf8_width_exec(raw[j]);
                                j += 1;
                            }
                            assert(raw@.take(raw@.len() as int) =~= raw@);
                            proof {
                                lemma_utf8_append(b0, raw@);
                            }
                            stopped = bytes >= 180;
                        }
                        capture = Some(buf);
                    },
                    None => {},
                }
            }
        }
        i += 1;
    }
    assert(lm.take(ls@.len() as int) =~= lm);
    let buf: Vec<char> = match capture {
        Some(b) => b,
        None => Vec::new(),
    };
    let bl = lines(buf.as_slice());
    let quote: Vec<char> = if bl.len() > 0 {
        assert(seqs(bl@)[0] == bl@[0]@);
        trim(bl[0].as_slice())
    } else {
        trim(&[])
    };
    if quote.len() == 0 {
        let empty: Vec<EvidenceAnchor> = Vec::new();
        assert(evidence_models(empty@) =~= seq![]);
        return empty;
    }
    let mut location = String::new();
    push_string(&mut location, f);
    push_str(&mut location, ":");
    push_decimal(&mut location, line as u64);
    let mut out: Vec<EvidenceAnchor> = Vec::new();
    out.push(EvidenceAnchor { location, quote: string_of(quote.as_slice()) });
    assert(evidence_models(out@) =~= seq![EvidenceModel { location: f@ + ":"@ + decimal(line as nat), quote: quote@ }]);
    out
}

pub(crate) proof fn lemma_utf8_append(a: Seq<char>, b: Seq<char>)
    ensures
        utf8_len(a + b) == utf8_len(a) + utf8_len(b),
    decreases b.len(),
{
    if b.len() > 0 {
        assert((a + b).drop_last() =~= a + b.drop_last());
        lemma_utf8_append(a, b.drop_last());
    } else {
        assert(a + b =~= a);
    }
}

} // verus!

verus! {

// ---------------------------------------------------------------------
// Sorting names
// ---------------------------------------------------------------------

/// Where `x` goes in `s[i..]`: before the first element it sorts before.
pub open spec fn insert_pos(s: Seq<Seq<char>>, x: Seq<char>, i: int) -> int
    decreases s.len() - i,
{
    if i < 0 || i >= s.len() {
        s.len() as int
    } else if chars_lt(x, s[i]) {
        i
    } else {
        insert_pos(s, x, i + 1)
    }
}

proof fn lemma_insert_pos_range(s: Seq<Seq<char>>, x: Seq<char>, i: int)
    requires
        0 <= i <= s.len(),
    ensures
        i <= insert_pos(s, x, i) <= s.len(),
    decreases s.len() - i,
{
    if i < s.len() && !chars_lt(x, s[i]) {
        lemma_insert_pos_range(s, x, i + 1);
    }
}

/// The names in ascending order (insertion sort; equal names keep their order).
pub open spec fn sort_seqs(s: Seq<Seq<char>>) -> Seq<Seq<char>>
    decreases s.len(),
{
    if s.len() == 0 {
        seq![]
    } else {
        let t = sort_seqs(s.drop_last());
        t.insert(insert_pos(t, s.last(), 0), s.last())
    }
}

proof fn lemma_sort_seqs_len(s: Seq<Seq<char>>)
    ensures
        sort_seqs(s).len() == s.len(),
    decreases s.len(),
{
    if s.len() > 0 {
        lemma_sort_seqs_len(s.drop_last());
        lemma_insert_pos_range(sort_seqs(s.drop_last()), s.last(), 0);
    }
}

/// Sorts names as `Vec<String>::sort` does.
pub fn sort_strings(v: &Vec<String>) -> (r: Vec<String>)
    ensures
        strs(r@) == sort_seqs(strs(v@)),
{
    let mut out: Vec<String> = Vec::new();
    let mut i: usize = 0;
    while i < v.len()
        invariant
            i <= v@.len(),
            strs(out@) == sort_seqs(strs(v@).take(i as int)),
        decreases v.len() - i,
    {
        let ghost t = strs(out@);
        assert(strs(v@).take(i + 1).drop_last() =~= strs(v@).take(i as int));
        assert(strs(v@).take(i + 1).last() == v@[i as int]@);
        let x = chars_of(v[i].as_str());
        let mut p: usize = 0;
        while p < out.len() && !is_chars_lt(x.as_slice(), out[p].as_str())
            invariant
                p <= out@.len(),
                t == strs(out@),
                insert_pos(t, x@, 0) == insert_pos(t, x@, p as int),
            decreases out.len() - p,
        {
            assert(t[p as int] == out@[p as int]@);
            p += 1;
        }
        proof {
            if p < out@.len() {
                assert(t[p as int] == out@[p as int]@);
            }
            lemma_insert_pos_range(t, x@, 0);
        }
        out.insert(p, v[i].clone());
        assert(strs(out@) =~= t.insert(p as int, x@));
        i += 1;
    }
    assert(strs(v@).take(v@.len() as int) =~= strs(v@));
    out
}

fn is_chars_lt(x: &[char], s: &str) -> (r: bool)
    ensures
        r == chars_lt(x@, s@),
{
    let y = chars_of(s);
    match compare_chars(x, y.as_slice()) {
        Order3::Less => true,
        _ => false,
    }
}

} // verus!

verus! {

// ---------------------------------------------------------------------
// The tracker
// ---------------------------------------------------------------------

/// The findings agents raised about one place in the code.
pub struct Cluster {
    pub key: FindingKey,
    pub findings: Vec<Finding>,
    pub severity: Severity,
    pub agents: Vec<String>,
}

pub struct ClusterModel {
    pub file: Seq<char>,
    pub span: LineSpan,
    pub findings: Seq<FindingModel>,
    pub severity: Severity,
    pub agents: Seq<Seq<char>>,
}

impl View for Cluster {
    type V = ClusterModel;

    open spec fn view(&self) -> ClusterModel {
        ClusterModel {
            file: self.key.file@,
            span: self.key.span,
            findings: finding_models(self.findings@),
            severity: self.severity,
            agents: strs(self.agents@),
        }
    }
}

pub open spec fn cluster_models(v: Seq<Cluster>) -> Seq<ClusterModel> {
    v.map_values(|c: Cluster| c@)
}

/// Clusters of located findings, the findings without a location, the
/// quorum (in thousandths) and the number of agents agreement is
/// measured against.
pub struct ConsensusTracker {
    clusters: Vec<Cluster>,
    quorum_permille: u32,
    agents: usize,
    loose: Vec<Finding>,
}

pub struct TrackerModel {
    pub clusters: Seq<ClusterModel>,
    pub quorum_permille: u32,
    pub agents: nat,
    pub loose: Seq<FindingModel>,
}

impl View for ConsensusTracker {
    type V = TrackerModel;

    closed spec fn view(&self) -> TrackerModel {
        TrackerModel {
            clusters: cluster_models(self.clusters@),
            quorum_permille: self.quorum_permille,
            agents: self.agents as nat,
            loose: finding_models(self.loose@),
        }
    }
}

/// Every cluster holds a finding, and names each agent once.
pub open spec fn tracker_wf(m: TrackerModel) -> bool {
    &&& m.agents >= 1
    &&& forall|i: int| 0 <= i < m.clusters.len() ==> (#[trigger] m.clusters[i]).findings.len() >= 1
    &&& forall|i: int| 0 <= i < m.clusters.len() ==> (#[trigger] m.clusters[i]).agents.no_duplicates()
}

pub open spec fn paths_eq(a: Seq<char>, b: Seq<char>) -> bool {
    components(a) == components(b)
}

/// The span a raw finding names: its start and end lines, or its start line alone.
pub open spec fn span_of(start: Option<u32>, end: Option<u32>) -> Option<LineSpan> {
    match (start, end) {
        (Some(s), Some(e)) => Some(LineSpan { start: s, end: e }),
        (Some(s), None) => Some(LineSpan { start: s, end: s }),
        _ => None,
    }
}

/// The finding an agent's raw finding becomes in a round.
pub open spec fn finding_of(rf: RawFindingModel, round: u8, agent: Seq<char>, diff: Seq<char>) -> FindingModel {
    FindingModel {
        agent,
        severity: rf.severity,
        confidence: rf.confidence,
        file: rf.file,
        span: span_of(rf.line_start, rf.line_end),
        message: rf.message,
        category: rf.category,
        title: rf.title,
        description: rf.description,
        suggested_fix: rf.suggested_fix,
        evidence: if rf.evidence.len() == 0 {
            fallback_evidence_spec(diff, rf.file, rf.line_start)
        } else {
            rf.evidence
        },
        round,
        raised_by: seq![agent],
    }
}

/// A finding at `file`/`span` with message `msg` joins cluster `c` when it
/// is about the same file and its span overlaps the cluster's or its
/// message is similar to the cluster's first message.
pub open spec fn joins(c: ClusterModel, file: Seq<char>, span: LineSpan, msg: Seq<char>) -> bool {
    paths_eq(c.file, file) && (spans_overlap_spec(c.span, span) || message_similar_spec(c.findings[0].message, msg))
}

pub open spec fn join_pos(cs: Seq<ClusterModel>, file: Seq<char>, span: LineSpan, msg: Seq<char>, i: int) -> Option<int>
    decreases cs.len() - i,
{
    if i < 0 || i >= cs.len() {
        None
    } else if joins(cs[i], file, span, msg) {
        Some(i)
    } else {
        join_pos(cs, file, span, msg, i + 1)
    }
}

/// The cluster whose key is exactly this file and span.
pub open spec fn same_key_pos(cs: Seq<ClusterModel>, file: Seq<char>, span: LineSpan, i: int) -> Option<int>
    decreases cs.len() - i,
{
    if i < 0 || i >= cs.len() {
        None
    } else if paths_eq(cs[i].file, file) && cs[i].span == span {
        Some(i)
    } else {
        same_key_pos(cs, file, span, i + 1)
    }
}

pub open spec fn max_severity(a: Severity, b: Severity) -> Severity {
    if severity_rank_spec(b) > severity_rank_spec(a) {
        b
    } else {
        a
    }
}

/// An agent's finding added to a cluster: once per agent, raising the
/// cluster's severity to the finding's when higher.
pub open spec fn add_to_cluster(c: ClusterModel, f: FindingModel, agent: Seq<char>) -> ClusterModel {
    if c.agents.contains(agent) {
        c
    } else {
        ClusterModel {
            file: c.file,
            span: c.span,
            findings: c.findings.push(f),
            severity: max_severity(c.severity, f.severity),
            agents: c.agents.push(agent),
        }
    }
}

pub open spec fn loose_has(loose: Seq<FindingModel>, agent: Seq<char>, msg: Seq<char>) -> bool {
    exists|i: int| 0 <= i < loose.len() && (#[trigger] loose[i]).agent == agent && loose[i].message == msg
}

/// One raw finding ingested: a located finding joins the first cluster it
/// joins (or the cluster with its exact key), else starts a new cluster; a
/// finding without file or line is kept once per agent and message.
pub open spec fn ingest_one(m: TrackerModel, rf: RawFindingModel, round: u8, agent: Seq<char>, diff: Seq<char>) -> TrackerModel {
    let f = finding_of(rf, round, agent, diff);
    match (rf.file, f.span) {
        (Some(file), Some(sp)) => {
            let pos = match join_pos(m.clusters, file, sp, f.message, 0) {
                Some(k) => Some(k),
                None => same_key_pos(m.clusters, file, sp, 0),
            };
            match pos {
                Some(k) => TrackerModel {
                    clusters: m.clusters.update(k, add_to_cluster(m.clusters[k], f, agent)),
                    quorum_permille: m.quorum_permille,
                    agents: m.agents,
                    loose: m.loose,
                },
                None => TrackerModel {
                    clusters: m.clusters.push(
                        ClusterModel { file, span: sp, findings: seq![f], severity: f.severity, agents: seq![agent] },
                    ),
                    quorum_permille: m.quorum_permille,
                    agents: m.agents,
                    loose: m.loose,
                },
            }
        },
        _ => if loose_has(m.loose, agent, f.message) {
            m
        } else {
            TrackerModel {
                clusters: m.clusters,
                quorum_permille: m.quorum_permille,
                agents: m.agents,
                loose: m.loose.push(f),
            }
        },
    }
}

pub open spec fn ingest_all(m: TrackerModel, raws: Seq<RawFindingModel>, round: u8, agent: Seq<char>, diff: Seq<char>) -> TrackerModel
    decreases raws.len(),
{
    if raws.len() == 0 {
        m
    } else {
        ingest_one(ingest_all(m, raws.drop_last(), round, agent, diff), raws.last(), round, agent, diff)
    }
}

} // verus!

verus! {

// ---------------------------------------------------------------------
// One finding per cluster, and severity calibration
// ---------------------------------------------------------------------

/// `a` ranks before `b`: higher severity, then higher confidence, then an
/// earlier round.
pub open spec fn better(a: FindingModel, b: FindingModel) -> bool {
    severity_rank_spec(a.severity) > severity_rank_spec(b.severity) || (severity_rank_spec(a.severity)
        == severity_rank_spec(b.severity) && (confidence_rank_spec(a.confidence) > confidence_rank_spec(
        b.confidence,
    ) || (confidence_rank_spec(a.confidence) == confidence_rank_spec(b.confidence) && a.round
        < b.round)))
}

/// The first finding of `fs[i..]` ranked strictly before all earlier ones,
/// starting from `best`.
pub open spec fn best_from(fs: Seq<FindingModel>, i: int, best: int) -> int
    decreases fs.len() - i,
{
    if i < 0 || i >= fs.len() {
        best
    } else if better(fs[i], fs[best]) {
        best_from(fs, i + 1, i)
    } else {
        best_from(fs, i + 1, best)
    }
}

proof fn lemma_best_from_range(fs: Seq<FindingModel>, i: int, best: int)
    requires
        0 <= best < fs.len(),
        0 <= i,
    ensures
        0 <= best_from(fs, i, best) < fs.len(),
    decreases fs.len() - i,
{
    if i < fs.len() {
        if better(fs[i], fs[best]) {
            lemma_best_from_range(fs, i + 1, i);
        } else {
            lemma_best_from_range(fs, i + 1, best);
        }
    }
}

pub open spec fn with_severity(f: FindingModel, s: Severity) -> FindingModel {
    FindingModel {
        agent: f.agent,
        severity: s,
        confidence: f.confidence,
        file: f.file,
        span: f.span,
        message: f.message,
        category: f.category,
        title: f.title,
        description: f.description,
        suggested_fix: f.suggested_fix,
        evidence: f.evidence,
        round: f.round,
        raised_by: f.raised_by,
    }
}

/// A cluster's finding: its best-ranked finding (the first among equals),
/// carrying the cluster's severity and every agent of the cluster, sorted.
pub open spec fn dedup_spec(c: ClusterModel) -> FindingModel {
    let b = c.findings[best_from(c.findings, 1, 0)];
    FindingModel {
        agent: b.agent,
        severity: c.severity,
        confidence: b.confidence,
        file: b.file,
        span: b.span,
        message: b.message,
        category: b.category,
        title: b.title,
        description: b.description,
        suggested_fix: b.suggested_fix,
        evidence: b.evidence,
        round: b.round,
        raised_by: sort_seqs(c.agents),
    }
}

pub open spec fn opt_paths_eq(a: Option<Seq<char>>, b: Option<Seq<char>>) -> bool {
    match (a, b) {
        (Some(x), Some(y)) => paths_eq(x, y),
        (None, None) => true,
        _ => false,
    }
}

pub open spec fn span_start(s: Option<LineSpan>) -> Option<u32> {
    match s {
        Some(sp) => Some(sp.start),
        None => None,
    }
}

/// Two findings are about the same thing: same file, same start line, same
/// message up to case.
pub open spec fn same_subject(a: FindingModel, b: FindingModel) -> bool {
    opt_paths_eq(a.file, b.file) && span_start(a.span) == span_start(b.span) && spec_lowercase(a.message)
        == spec_lowercase(b.message)
}

/// No other finding of `fs` is about the same thing as `fs[i]`.
pub open spec fn lone(fs: Seq<FindingModel>, i: int) -> bool {
    forall|j: int| 0 <= j < fs.len() && j != i ==> !same_subject(#[trigger] fs[j], fs[i])
}

pub open spec fn downgraded(s: Severity) -> Severity {
    match s {
        Severity::Critical => Severity::Warning,
        Severity::Warning => Severity::Info,
        Severity::Info => Severity::Info,
    }
}

/// A low-confidence finding that no other finding corroborates drops one
/// severity level; every other finding is unchanged.
pub open spec fn calibrate_spec(fs: Seq<FindingModel>) -> Seq<FindingModel> {
    Seq::new(
        fs.len(),
        |i: int|
            if fs[i].confidence == Confidence::Low && lone(fs, i) {
                with_severity(fs[i], downgraded(fs[i].severity))
            } else {
                fs[i]
            },
    )
}

fn opt_components(f: &Option<String>) -> (r: Option<Vec<Vec<char>>>)
    ensures
        match (r, opt_str(*f)) {
            (Some(c), Some(p)) => seqs(c@) == components(p),
            (None, None) => true,
            _ => false,
        },
{
    match f {
        Some(p) => {
            let pc = chars_of(p.as_str());
            Some(path_components(pc.as_slice()))
        },
        None => None,
    }
}

fn opt_components_eq(a: &Option<Vec<Vec<char>>>, b: &Option<Vec<Vec<char>>>) -> (r: bool)
    ensures
        r == match (*a, *b) {
            (Some(x), Some(y)) => seqs(x@) == seqs(y@),
            (None, None) => true,
            _ => false,
        },
{
    match (a, b) {
        (Some(x), Some(y)) => components_eq(x, y),
        (None, None) => true,
        _ => false,
    }
}

fn span_start_exec(s: &Option<LineSpan>) -> (r: Option<u32>)
    ensures
        r == span_start(*s),
{
    match s {
        Some(sp) => Some(sp.start),
        None => None,
    }
}

/// Lowers the severity of each low-confidence finding no other finding
/// corroborates (same file, start line and message up to case).
pub fn calibrate_low_confidence(findings: &mut Vec<Finding>)
    ensures
        finding_models(final(findings)@) == calibrate_spec(finding_models(old(findings)@)),
{
    let ghost orig = finding_models(findings@);
    let n = findings.len();
    let mut files: Vec<Option<Vec<Vec<char>>>> = Vec::new();
    let mut starts: Vec<Option<u32>> = Vec::new();
    let mut lows: Vec<String> = Vec::new();
    let mut k: usize = 0;
    while k < n
        invariant
            n == findings@.len(),
            orig == finding_models(findings@),
            k <= n,
            files@.len() == k,
            starts@.len() == k,
            lows@.len() == k,
            forall|j: int| 0 <= j < k ==> match (#[trigger] files@[j], orig[j].file) {
                (Some(c), Some(p)) => seqs(c@) == components(p),
                (None, None) => true,
                _ => false,
            },
            forall|j: int| 0 <= j < k ==> #[trigger] starts@[j] == span_start(orig[j].span),
            forall|j: int| 0 <= j < k ==> #[trigger] lows@[j]@ == spec_lowercase(orig[j].message),
        decreases n - k,
    {
        files.push(opt_components(&findings[k].file));
        starts.push(span_start_exec(&findings[k].span));
        lows.push(to_lowercase(findings[k].message.as_str()));
        k += 1;
    }
    let ghost target = calibrate_spec(orig);
    let mut i: usize = 0;
    while i < n
        invariant
            n == findings@.len(),
            n == orig.len(),
            target == calibrate_spec(orig),
            i <= n,
            files@.len() == n,
            starts@.len() == n,
            lows@.len() == n,
            forall|j: int| 0 <= j < n ==> match (#[trigger] files@[j], orig[j].file) {
                (Some(c), Some(p)) => seqs(c@) == components(p),
                (None, None) => true,
                _ => false,
            },
            forall|j: int| 0 <= j < n ==> #[trigger] starts@[j] == span_start(orig[j].span),
            forall|j: int| 0 <= j < n ==> #[trigger] lows@[j]@ == spec_lowercase(orig[j].message),
            forall|j: int| 0 <= j < i ==> #[trigger] finding_models(findings@)[j] == target[j],
            forall|j: int| i <= j < n ==> #[trigger] finding_models(findings@)[j] == orig[j],
        decreases n - i,
    {
        let mut others = false;
        let mut j: usize = 0;
        while j < n
            invariant
                i < n,
                j <= n,
                n == orig.len(),
                files@.len() == n,
                starts@.len() == n,
                lows@.len() == n,
                forall|q: int| 0 <= q < n ==> match (#[trigger] files@[q], orig[q].file) {
                    (Some(c), Some(p)) => seqs(c@) == components(p),
                    (None, None) => true,
                    _ => false,
                },
                forall|q: int| 0 <= q < n ==> #[trigger] starts@[q] == span_start(orig[q].span),
                forall|q: int| 0 <= q < n ==> #[trigger] lows@[q]@ == spec_lowercase(orig[q].message),
                others == exists|q: int| 0 <= q < j && q != i && same_subject(#[trigger] orig[q], orig[i as int]),
            decreases n - j,
        {
            if j != i && opt_components_eq(&files[j], &files[i]) && starts[j] == starts[i] && str_eq(
                lows[j].as_str(),
                lows[i].as_str(),
            ) {
                assert(same_subject(orig[j as int], orig[i as int]));
                others = true;
            } else {
                assert(j != i ==> !same_subject(orig[j as int], orig[i as int]));
            }
            j += 1;
        }
        assert(lone(orig, i as int) == !others);
        assert(finding_models(findings@)[i as int] == orig[i as int]);
        if !others && findings[i].confidence == Confidence::Low {
            let s = match findings[i].severity {
                Severity::Critical => Severity::Warning,
                Severity::Warning => Severity::Info,
                Severity::Info => Severity::Info,
            };
            let ghost before = finding_models(findings@);
            let mut f = findings.remove(i);
            f.severity = s;
            assert(f@ == with_severity(orig[i as int], downgraded(orig[i as int].severity)));
            findings.insert(i, f);
            assert(finding_models(findings@) =~= before.update(i as int, target[i as int]));
        } else {
            assert(target[i as int] == orig[i as int]);
        }
        i += 1;
    }
    assert(finding_models(findings@) =~= target);
}

} // verus!

verus! {

fn make_finding(rf: &RawFinding, round: u8, agent_id: &str, diff: &str) -> (f: Finding)
    ensures
        f@ == finding_of(rf@, round, agent_id@, diff@),
{
    let span = match (rf.line_start, rf.line_end) {
        (Some(s), Some(e)) => Some(LineSpan { start: s, end: e }),
        (Some(s), None) => Some(LineSpan { start: s, end: s }),
        _ => None,
    };
    let evidence = if rf.evidence.len() == 0 {
        fallback_evidence_from_diff(diff, &rf.file, rf.line_start)
    } else {
        clone_evidence(&rf.evidence)
    };
    let mut raised_by: Vec<String> = Vec::new();
    raised_by.push(agent_id.to_owned());
    assert(strs(raised_by@) =~= seq![agent_id@]);
    Finding {
        agent: agent_id.to_owned(),
        severity: rf.severity,
        confidence: rf.confidence,
        file: clone_opt_str(&rf.file),
        span,
        message: rf.message.clone(),
        category: clone_opt_str(&rf.category),
        title: clone_opt_str(&rf.title),
        description: clone_opt_str(&rf.description),
        suggested_fix: clone_opt_str(&rf.suggested_fix),
        evidence,
        round,
        raised_by,
    }
}

fn has_string(v: &Vec<String>, x: &str) -> (r: bool)
    ensures
        r == strs(v@).contains(x@),
{
    let mut i: usize = 0;
    while i < v.len()
        invariant
            i <= v@.len(),
            forall|k: int| 0 <= k < i ==> v@[k]@ != x@,
        decreases v.len() - i,
    {
        if str_eq(v[i].as_str(), x) {
            assert(strs(v@)[i as int] == x@);
            return true;
        }
        i += 1;
    }
    assert(forall|k: int| 0 <= k < v@.len() ==> strs(v@)[k] != x@);
    false
}

impl ConsensusTracker {
    pub closed spec fn wf(&self) -> bool {
        tracker_wf(self@)
    }

    /// An empty tracker; agreement is measured against at least one agent.
    pub fn new(quorum_permille: u32, agents: usize) -> (r: Self)
        ensures
            r.wf(),
            r@.clusters.len() == 0,
            r@.loose.len() == 0,
            r@.quorum_permille == quorum_permille,
            r@.agents == if agents < 1 {
                1
            } else {
                agents as nat
            },
    {
        let r = ConsensusTracker {
            clusters: Vec::new(),
            quorum_permille,
            agents: if agents < 1 {
                1
            } else {
                agents
            },
            loose: Vec::new(),
        };
        assert(r@.clusters =~= seq![]);
        assert(r@.loose =~= seq![]);
        r
    }

    fn find_join(&self, file: &Vec<Vec<char>>, fpath: &str, span: &LineSpan, msg: &str) -> (r: Option<usize>)
        requires
            self.wf(),
            seqs(file@) == components(fpath@),
        ensures
            r is None ==> join_pos(self@.clusters, fpath@, *span, msg@, 0) is None,
            r is Some ==> join_pos(self@.clusters, fpath@, *span, msg@, 0) == Some(r.unwrap() as int)
                && r.unwrap() < self@.clusters.len(),
    {
        let ghost cs = self@.clusters;
        let mut i: usize = 0;
        while i < self.clusters.len()
            invariant
                i <= self.clusters@.len(),
                cs == self@.clusters,
                cs.len() == self.clusters@.len(),
                tracker_wf(self@),
                seqs(file@) == components(fpath@),
                join_pos(cs, fpath@, *span, msg@, 0) == join_pos(cs, fpath@, *span, msg@, i as int),
            decreases self.clusters.len() - i,
        {
            let c = &self.clusters[i];
            assert(cs[i as int] == c@);
            assert(c@.findings.len() >= 1);
            let cc = chars_of(c.key.file.as_str());
            let ccomps = path_components(cc.as_slice());
            if components_eq(&ccomps, file) {
                assert(c@.findings[0] == c.findings@[0]@);
                if spans_overlap(&c.key.span, span) || message_similar(c.findings[0].message.as_str(), msg) {
                    return Some(i);
                }
            }
            i += 1;
        }
        None
    }

    fn find_same_key(&self, file: &Vec<Vec<char>>, fpath: &str, span: &LineSpan) -> (r: Option<usize>)
        requires
            seqs(file@) == components(fpath@),
        ensures
            r is None ==> same_key_pos(self@.clusters, fpath@, *span, 0) is None,
            r is Some ==> same_key_pos(self@.clusters, fpath@, *span, 0) == Some(r.unwrap() as int)
                && r.unwrap() < self@.clusters.len(),
    {
        let ghost cs = self@.clusters;
        let mut i: usize = 0;
        while i < self.clusters.len()
            invariant
                i <= self.clusters@.len(),
                cs == self@.clusters,
                cs.len() == self.clusters@.len(),
                seqs(file@) == components(fpath@),
                same_key_pos(cs, fpath@, *span, 0) == same_key_pos(cs, fpath@, *span, i as int),
            decreases self.clusters.len() - i,
        {
            let c = &self.clusters[i];
            assert(cs[i as int] == c@);
            let cc = chars_of(c.key.file.as_str());
            let ccomps = path_components(cc.as_slice());
            if components_eq(&ccomps, file) && c.key.span == *span {
                return Some(i);
            }
            i += 1;
        }
        None
    }

    fn ingest_raw(&mut self, rf: &RawFinding, round: u8, agent_id: &str, diff: &str)
        requires
            old(self).wf(),
        ensures
            final(self).wf(),
            final(self)@ == ingest_one(old(self)@, rf@, round, agent_id@, diff@),
    {
        let f = make_finding(rf, round, agent_id, diff);
        let ghost m = self@;
        match (&rf.file, f.span) {
            (Some(file), Some(sp)) => {
                let fc = chars_of(file.as_str());
                let comps = path_components(fc.as_slice());
                let pos = match self.find_join(&comps, file.as_str(), &sp, f.message.as_str()) {
                    Some(k) => Some(k),
                    None => self.find_same_key(&comps, file.as_str(), &sp),
                };
                match pos {
                    Some(k) => {
                        let ghost before = cluster_models(self.clusters@);
                        let mut c = self.clusters.remove(k);
                        assert(c@ == before[k as int]);
                        if !has_string(&c.agents, agent_id) {
                            let fs = f.severity;
                            let ghost agents0 = strs(c.agents@);
                            c.findings.push(f);
                            c.agents.push(agent_id.to_owned());
                            assert(strs(c.agents@) =~= agents0.push(agent_id@));
                            if severity_rank(&fs) > severity_rank(&c.severity) {
                                c.severity = fs;
                            }
                            assert(finding_models(c.findings@) =~= before[k as int].findings.push(finding_of(rf@, round, agent_id@, diff@)));
                        }
                        self.clusters.insert(k, c);
                        assert(cluster_models(self.clusters@) =~= before.update(
                            k as int,
                            add_to_cluster(before[k as int], finding_of(rf@, round, agent_id@, diff@), agent_id@),
                        ));
                    },
                    None => {
                        let ghost before = cluster_models(self.clusters@);
                        let sev = f.severity;
                        let mut fs: Vec<Finding> = Vec::new();
                        fs.push(f);
                        let mut ags: Vec<String> = Vec::new();
                        ags.push(agent_id.to_owned());
                        let c = Cluster { key: FindingKey { file: file.clone(), span: sp }, findings: fs, severity: sev, agents: ags };
                        assert(strs(c.agents@) =~= seq![agent_id@]);
                        assert(finding_models(c.findings@) =~= seq![finding_of(rf@, round, agent_id@, diff@)]);
                        self.clusters.push(c);
                        assert(cluster_models(self.clusters@) =~= before.push(c@));
                    },
                }
            },
            _ => {
                let mut already = false;
                let mut i: usize = 0;
                while i < self.loose.len()
                    invariant
                        i <= self.loose@.len(),
                        self@ == m,
                        already == exists|q: int| 0 <= q < i && (#[trigger] m.loose[q]).agent == agent_id@
                            && m.loose[q].message == f.message@,
                    decreases self.loose.len() - i,
                {
                    assert(m.loose[i as int] == self.loose@[i as int]@);
                    if str_eq(self.loose[i].agent.as_str(), agent_id) && str_eq(
                        self.loose[i].message.as_str(),
                        f.message.as_str(),
                    ) {
                        already = true;
                    }
                    i += 1;
                }
                if !already {
                    let ghost before = finding_models(self.loose@);
                    self.loose.push(f);
                    assert(finding_models(self.loose@) =~= before.push(finding_of(rf@, round, agent_id@, diff@)));
                }
            },
        }
    }

    /// Ingests one agent's raw findings of a round, in order.
    pub fn ingest_round(&mut self, raw: &[RawFinding], round: u8, agent_id: &str, diff: &str)
        requires
            old(self).wf(),
        ensures
            final(self).wf(),
            final(self)@ == ingest_all(old(self)@, raw_models(raw@), round, agent_id@, diff@),
    {
        let ghost start = self@;
        let mut i: usize = 0;
        while i < raw.len()
            invariant
                i <= raw@.len(),
                self.wf(),
                self@ == ingest_all(start, raw_models(raw@).take(i as int), round, agent_id@, diff@),
            decreases raw.len() - i,
        {
            assert(raw_models(raw@).take(i + 1).drop_last() =~= raw_models(raw@).take(i as int));
            assert(raw_models(raw@).take(i + 1).last() == raw@[i as int]@);
            self.ingest_raw(&raw[i], round, agent_id, diff);
            i += 1;
        }
        assert(raw_models(raw@).take(raw@.len() as int) =~= raw_models(raw@));
    }
}

} // verus!

verus! {

/// The agreement on one cluster: how many agents raised it, out of how
/// many, its severity, and whether the share reaches the quorum.
pub open spec fn status_of(c: ClusterModel, m: TrackerModel) -> ConsensusStatus {
    ConsensusStatus {
        agreed_count: c.agents.len() as usize,
        total_agents: m.agents as usize,
        severity: c.severity,
        reached_quorum: 1000 * c.agents.len() >= m.quorum_permille * m.agents,
    }
}

fn dedup_cluster(c: &Cluster) -> (r: Finding)
    requires
        c@.findings.len() >= 1,
    ensures
        r@ == dedup_spec(c@),
{
    let ghost fs = c@.findings;
    let mut best: usize = 0;
    let mut i: usize = 1;
    proof {
        lemma_best_from_range(fs, 1, 0);
    }
    while i < c.findings.len()
        invariant
            fs == finding_models(c.findings@),
            fs.len() >= 1,
            1 <= i <= fs.len(),
            best < i,
            best_from(fs, 1, 0) == best_from(fs, i as int, best as int),
        decreases c.findings.len() - i,
    {
        let a = &c.findings[i];
        let b = &c.findings[best];
        assert(fs[i as int] == a@);
        assert(fs[best as int] == b@);
        let sa = severity_rank(&a.severity);
        let sb = severity_rank(&b.severity);
        let ca = confidence_rank(&a.confidence);
        let cb = confidence_rank(&b.confidence);
        if sa > sb || (sa == sb && (ca > cb || (ca == cb && a.round < b.round))) {
            best = i;
        }
        i += 1;
    }
    assert(fs[best as int] == c.findings@[best as int]@);
    let mut f = c.findings[best].duplicate();
    f.raised_by = sort_strings(&c.agents);
    f.severity = c.severity;
    f
}

impl ConsensusTracker {
    /// The agreement on each cluster, in cluster order.
    pub fn consensus_map(&self) -> (r: ConsensusMap)
        ensures
            r.0@.len() == self@.clusters.len(),
            forall|i: int| 0 <= i < r.0@.len() ==> (#[trigger] r.0@[i]).0.file@ == self@.clusters[i].file
                && r.0@[i].0.span == self@.clusters[i].span
                && r.0@[i].1 == status_of(self@.clusters[i], self@),
    {
        let mut out: Vec<(FindingKey, ConsensusStatus)> = Vec::new();
        let mut i: usize = 0;
        while i < self.clusters.len()
            invariant
                i <= self.clusters@.len(),
                out@.len() == i,
                self@.clusters.len() == self.clusters@.len(),
                forall|k: int| 0 <= k < i ==> (#[trigger] out@[k]).0.file@ == self@.clusters[k].file
                    && out@[k].0.span == self@.clusters[k].span
                    && out@[k].1 == status_of(self@.clusters[k], self@),
            decreases self.clusters.len() - i,
        {
            let c = &self.clusters[i];
            assert(self@.clusters[i as int] == c@);
            let agreed = c.agents.len();
            let q = self.quorum_permille as u128;
            let a = self.agents as u128;
            assert(q * a <= 0xffff_ffffu128 * 0xffff_ffff_ffff_ffffu128) by (nonlinear_arith)
                requires
                    q <= 0xffff_ffffu128,
                    a <= 0xffff_ffff_ffff_ffffu128,
            ;
            let reached = 1000 * (agreed as u128) >= q * a;
            let status = ConsensusStatus {
                agreed_count: agreed,
                total_agents: self.agents,
                severity: c.severity,
                reached_quorum: reached,
            };
            out.push((FindingKey { file: c.key.file.clone(), span: c.key.span }, status));
            i += 1;
        }
        ConsensusMap(out)
    }

    /// One finding per cluster (in cluster order), then the findings without
    /// a location, calibrated for uncorroborated low confidence.
    pub fn all_findings(&self) -> (r: Vec<Finding>)
        requires
            self.wf(),
        ensures
            finding_models(r@) == calibrate_spec(
                self@.clusters.map_values(|c: ClusterModel| dedup_spec(c)) + self@.loose,
            ),
    {
        let ghost base = self@.clusters.map_values(|c: ClusterModel| dedup_spec(c)) + self@.loose;
        let mut all: Vec<Finding> = Vec::new();
        let mut i: usize = 0;
        while i < self.clusters.len()
            invariant
                i <= self.clusters@.len(),
                tracker_wf(self@),
                self@.clusters.len() == self.clusters@.len(),
                all@.len() == i,
                forall|k: int| 0 <= k < i ==> #[trigger] all@[k]@ == dedup_spec(self@.clusters[k]),
            decreases self.clusters.len() - i,
        {
            assert(self@.clusters[i as int] == self.clusters@[i as int]@);
            all.push(dedup_cluster(&self.clusters[i]));
            i += 1;
        }
        let n = all.len();
        let mut j: usize = 0;
        while j < self.loose.len()
            invariant
                j <= self.loose@.len(),
                n == self@.clusters.len(),
                all@.len() == n + j,
                self@.loose == finding_models(self.loose@),
                forall|k: int| 0 <= k < n ==> #[trigger] all@[k]@ == dedup_spec(self@.clusters[k]),
                forall|k: int| n <= k < n + j ==> #[trigger] all@[k]@ == self@.loose[k - n],
            decreases self.loose.len() - j,
        {
            all.push(self.loose[j].duplicate());
            j += 1;
        }
        assert(finding_models(all@) =~= base);
        calibrate_low_confidence(&mut all);
        all
    }
}

// ---------------------------------------------------------------------
// Laws of clustering and calibration
// ---------------------------------------------------------------------

/// Whether two spans overlap does not depend on their order.
pub proof fn law_spans_overlap_symmetric(a: LineSpan, b: LineSpan)
    ensures
        spans_overlap_spec(a, b) == spans_overlap_spec(b, a),
{
}

/// Whether two messages are similar does not depend on their order.
pub proof fn law_message_similar_symmetric(a: Seq<char>, b: Seq<char>)
    ensures
        message_similar_spec(a, b) == message_similar_spec(b, a),
{
    let x = token_set(a);
    let y = token_set(b);
    assert(x.intersect(y) =~= y.intersect(x));
    assert(x.union(y) =~= y.union(x));
}

/// Calibration never raises a severity, changes nothing but severities,
/// and leaves every finding that is not of low confidence as it was.
pub proof fn law_calibrate_only_lowers(fs: Seq<FindingModel>)
    ensures
        calibrate_spec(fs).len() == fs.len(),
        forall|i: int| 0 <= i < fs.len() ==> severity_rank_spec(#[trigger] calibrate_spec(fs)[i].severity) <= severity_rank_spec(fs[i].severity),
        forall|i: int| 0 <= i < fs.len() ==> with_severity(fs[i], #[trigger] calibrate_spec(fs)[i].severity) == calibrate_spec(fs)[i],
        forall|i: int| 0 <= i < fs.len() && fs[i].confidence != Confidence::Low ==> #[trigger] calibrate_spec(fs)[i] == fs[i],
{
}

/// A finding that another finding corroborates (same file, start line and
/// message up to case) keeps its severity.
pub proof fn law_corroborated_kept(fs: Seq<FindingModel>, i: int, j: int)
    requires
        0 <= i < fs.len(),
        0 <= j < fs.len(),
        i != j,
        same_subject(fs[j], fs[i]),
    ensures
        calibrate_spec(fs)[i] == fs[i],
{
}

/// In the consensus map, agreement reaches the quorum for a cluster exactly
/// when its agents are at least the quorum share of all agents; adding an
/// agent to a cluster never loses the quorum.
pub proof fn law_quorum_monotone(c: ClusterModel, d: ClusterModel, m: TrackerModel)
    requires
        c.agents.len() <= d.agents.len(),
    ensures
        status_of(c, m).reached_quorum ==> status_of(d, m).reached_quorum,
{
}


/// The tracker after several rounds of agent answers, ingested in order:
/// each step is one agent's raw findings of one round.
pub open spec fn ingest_rounds(
    m: TrackerModel,
    steps: Seq<(Seq<RawFindingModel>, u8, Seq<char>, Seq<char>)>,
) -> TrackerModel
    decreases steps.len(),
{
    if steps.len() == 0 {
        m
    } else {
        let s = steps.last();
        ingest_all(ingest_rounds(m, steps.drop_last()), s.0, s.1, s.2, s.3)
    }
}

/// The agents whose answers were ingested.
pub open spec fn step_agents(steps: Seq<(Seq<RawFindingModel>, u8, Seq<char>, Seq<char>)>) -> Set<Seq<char>> {
    step_names(steps).to_set()
}

/// The agent of each step, in order.
pub open spec fn step_names(steps: Seq<(Seq<RawFindingModel>, u8, Seq<char>, Seq<char>)>) -> Seq<Seq<char>> {
    steps.map_values(|s: (Seq<RawFindingModel>, u8, Seq<char>, Seq<char>)| s.2)
}

/// Some ingested raw finding names this file.
pub open spec fn file_raised(steps: Seq<(Seq<RawFindingModel>, u8, Seq<char>, Seq<char>)>, file: Seq<char>) -> bool {
    exists|i: int, j: int| 0 <= i < steps.len() && 0 <= j < steps[i].0.len() && #[trigger] steps[i].0[j].file == Some(file)
}

/// What every step keeps: the agent count and quorum, and of each cluster
/// at least one agent, no agent twice, only ingested agents, and a file
/// that an ingested finding names.
pub open spec fn clusters_grounded(
    m: TrackerModel,
    q: u32,
    n: nat,
    steps: Seq<(Seq<RawFindingModel>, u8, Seq<char>, Seq<char>)>,
) -> bool {
    &&& m.quorum_permille == q
    &&& m.agents == n
    &&& forall|i: int| 0 <= i < m.clusters.len() ==> {
        let c = #[trigger] m.clusters[i];
        &&& c.agents.len() >= 1
        &&& c.agents.no_duplicates()
        &&& forall|k: int| 0 <= k < c.agents.len() ==> step_agents(steps).contains(#[trigger] c.agents[k])
        &&& file_raised(steps, c.file)
    }
}

proof fn lemma_grounded_extend(
    m: TrackerModel,
    q: u32,
    n: nat,
    steps: Seq<(Seq<RawFindingModel>, u8, Seq<char>, Seq<char>)>,
    more: Seq<(Seq<RawFindingModel>, u8, Seq<char>, Seq<char>)>,
)
    requires
        clusters_grounded(m, q, n, steps),
    ensures
        clusters_grounded(m, q, n, steps + more),
{
    let all = steps + more;
    assert forall|i: int| 0 <= i < m.clusters.len() implies {
        let c = #[trigger] m.clusters[i];
        &&& forall|k: int| 0 <= k < c.agents.len() ==> step_agents(all).contains(#[trigger] c.agents[k])
        &&& file_raised(all, c.file)
    } by {
        let c = m.clusters[i];
        assert forall|k: int| 0 <= k < c.agents.len() implies step_agents(all).contains(#[trigger] c.agents[k]) by {
            assert(step_agents(steps).contains(c.agents[k]));
            let j = choose|j: int| 0 <= j < steps.len() && #[trigger] step_names(steps)[j] == c.agents[k];
            assert(step_names(all)[j] == c.agents[k]);
        }
        assert(file_raised(steps, c.file));
        let (a, b) = choose|a: int, b: int| 0 <= a < steps.len() && 0 <= b < steps[a].0.len() && #[trigger] steps[a].0[b].file == Some(c.file);
        assert(all[a] == steps[a]);
        assert(all[a].0[b].file == Some(c.file));
    }
}

proof fn lemma_grounded_one(
    m: TrackerModel,
    q: u32,
    n: nat,
    steps: Seq<(Seq<RawFindingModel>, u8, Seq<char>, Seq<char>)>,
    rf: RawFindingModel,
    round: u8,
    agent: Seq<char>,
    diff: Seq<char>,
)
    requires
        clusters_grounded(m, q, n, steps),
        step_agents(steps).contains(agent),
        exists|i: int, j: int| 0 <= i < steps.len() && 0 <= j < steps[i].0.len() && #[trigger] steps[i].0[j] == rf,
    ensures
        clusters_grounded(ingest_one(m, rf, round, agent, diff), q, n, steps),
{
    let f = finding_of(rf, round, agent, diff);
    let r = ingest_one(m, rf, round, agent, diff);
    match (rf.file, f.span) {
        (Some(file), Some(sp)) => {
            let pos = match join_pos(m.clusters, file, sp, f.message, 0) {
                Some(k) => Some(k),
                None => same_key_pos(m.clusters, file, sp, 0),
            };
            match pos {
                Some(k) => {
                    lemma_pos_in_range(m, file, sp, f.message);
                    let c = m.clusters[k];
                    let d = add_to_cluster(c, f, agent);
                    assert(m.clusters[k] == c);
                    if !c.agents.contains(agent) {
                        assert forall|x: int, y: int| 0 <= x < y < d.agents.len() implies d.agents[x] != d.agents[y] by {
                            if y == c.agents.len() {
                                assert(d.agents[x] == c.agents[x]);
                            }
                        }
                        assert forall|x: int| 0 <= x < d.agents.len() implies step_agents(steps).contains(#[trigger] d.agents[x]) by {
                            if x < c.agents.len() {
                                assert(d.agents[x] == c.agents[x]);
                            }
                        }
                    }
                    assert forall|i: int| 0 <= i < r.clusters.len() implies {
                        let c2 = #[trigger] r.clusters[i];
                        &&& c2.agents.len() >= 1
                        &&& c2.agents.no_duplicates()
                        &&& forall|x: int| 0 <= x < c2.agents.len() ==> step_agents(steps).contains(#[trigger] c2.agents[x])
                        &&& file_raised(steps, c2.file)
                    } by {
                        if i != k {
                            assert(r.clusters[i] == m.clusters[i]);
                        }
                    }
                },
                None => {
                    let (a, b) = choose|a: int, b: int| 0 <= a < steps.len() && 0 <= b < steps[a].0.len() && #[trigger] steps[a].0[b] == rf;
                    assert(steps[a].0[b].file == Some(file));
                    assert(file_raised(steps, file));
                    assert forall|i: int| 0 <= i < r.clusters.len() implies {
                        let c2 = #[trigger] r.clusters[i];
                        &&& c2.agents.len() >= 1
                        &&& c2.agents.no_duplicates()
                        &&& forall|x: int| 0 <= x < c2.agents.len() ==> step_agents(steps).contains(#[trigger] c2.agents[x])
                        &&& file_raised(steps, c2.file)
                    } by {
                        if i < m.clusters.len() {
                            assert(r.clusters[i] == m.clusters[i]);
                        } else {
                            assert(r.clusters[i].agents == seq![agent]);
                            assert(r.clusters[i].file == file);
                        }
                    }
                },
            }
        },
        _ => {},
    }
}

proof fn lemma_pos_in_range(m: TrackerModel, file: Seq<char>, sp: LineSpan, msg: Seq<char>)
    ensures
        join_pos(m.clusters, file, sp, msg, 0) matches Some(k) ==> 0 <= k < m.clusters.len(),
        same_key_pos(m.clusters, file, sp, 0) matches Some(k) ==> 0 <= k < m.clusters.len(),
{
    lemma_join_pos_range(m.clusters, file, sp, msg, 0);
    lemma_same_key_pos_range(m.clusters, file, sp, 0);
}

proof fn lemma_join_pos_range(cs: Seq<ClusterModel>, file: Seq<char>, sp: LineSpan, msg: Seq<char>, i: int)
    ensures
        join_pos(cs, file, sp, msg, i) matches Some(k) ==> 0 <= k < cs.len(),
    decreases cs.len() - i,
{
    if 0 <= i < cs.len() && !joins(cs[i], file, sp, msg) {
        lemma_join_pos_range(cs, file, sp, msg, i + 1);
    }
}

proof fn lemma_same_key_pos_range(cs: Seq<ClusterModel>, file: Seq<char>, sp: LineSpan, i: int)
    ensures
        same_key_pos(cs, file, sp, i) matches Some(k) ==> 0 <= k < cs.len(),
    decreases cs.len() - i,
{
    if 0 <= i < cs.len() && !(paths_eq(cs[i].file, file) && cs[i].span == sp) {
        lemma_same_key_pos_range(cs, file, sp, i + 1);
    }
}

proof fn lemma_grounded_all(
    m: TrackerModel,
    q: u32,
    n: nat,
    steps: Seq<(Seq<RawFindingModel>, u8, Seq<char>, Seq<char>)>,
    raws: Seq<RawFindingModel>,
    round: u8,
    agent: Seq<char>,
    diff: Seq<char>,
    t: int,
)
    requires
        clusters_grounded(m, q, n, steps),
        0 <= t < steps.len(),
        steps[t] == (raws, round, agent, diff),
    ensures
        clusters_grounded(ingest_all(m, raws, round, agent, diff), q, n, steps),
    decreases raws.len(),
{
    if raws.len() > 0 {
        let p = raws.drop_last();
        assert(p.len() < raws.len());
        lemma_grounded_all_prefix(m, q, n, steps, raws, round, agent, diff, t, p.len() as int);
    }
}

proof fn lemma_grounded_all_prefix(
    m: TrackerModel,
    q: u32,
    n: nat,
    steps: Seq<(Seq<RawFindingModel>, u8, Seq<char>, Seq<char>)>,
    raws: Seq<RawFindingModel>,
    round: u8,
    agent: Seq<char>,
    diff: Seq<char>,
    t: int,
    len: int,
)
    requires
        clusters_grounded(m, q, n, steps),
        0 <= t < steps.len(),
        steps[t] == (raws, round, agent, diff),
        0 <= len < raws.len(),
    ensures
        clusters_grounded(ingest_all(m, raws.take(len + 1), round, agent, diff), q, n, steps),
    decreases len,
{
    let pre = raws.take(len + 1);
    assert(pre.drop_last() =~= raws.take(len));
    assert(pre.last() == raws[len]);
    if len > 0 {
        lemma_grounded_all_prefix(m, q, n, steps, raws, round, agent, diff, t, len - 1);
        assert(raws.take(len - 1 + 1) =~= raws.take(len));
    } else {
        assert(raws.take(0) =~= Seq::<RawFindingModel>::empty());
    }
    assert(step_names(steps)[t] == agent);
    assert(step_agents(steps).contains(agent));
    assert(steps[t].0[len] == raws[len]);
    lemma_grounded_one(ingest_all(m, raws.take(len), round, agent, diff), q, n, steps, raws[len], round, agent, diff);
}

proof fn lemma_grounded_rounds(
    m: TrackerModel,
    q: u32,
    n: nat,
    steps: Seq<(Seq<RawFindingModel>, u8, Seq<char>, Seq<char>)>,
)
    requires
        m.clusters.len() == 0,
        m.quorum_permille == q,
        m.agents == n,
    ensures
        clusters_grounded(ingest_rounds(m, steps), q, n, steps),
    decreases steps.len(),
{
    if steps.len() == 0 {
    } else {
        let pre = steps.drop_last();
        lemma_grounded_rounds(m, q, n, pre);
        let s = steps.last();
        assert(pre + seq![s] =~= steps);
        lemma_grounded_extend(ingest_rounds(m, pre), q, n, pre, seq![s]);
        let t = steps.len() - 1;
        assert(steps[t] == (s.0, s.1, s.2, s.3));
        if s.0.len() > 0 {
            lemma_grounded_all_prefix(ingest_rounds(m, pre), q, n, steps, s.0, s.1, s.2, s.3, t, s.0.len() - 1);
            assert(s.0.take(s.0.len() - 1 + 1) =~= s.0);
        }
    }
}

/// Over any rounds of answers ingested into a new tracker for `agents`
/// agents and a quorum: every cluster counts the agents it was measured
/// against as the tracker's (at least one), was raised by at least one and
/// at most all of the distinct agents that answered, names a file that an
/// answer named, and reaches the quorum exactly when its agents make up
/// the quorum share (in thousandths) of all agents.
pub proof fn law_consensus_bounds(
    quorum_permille: u32,
    agents: nat,
    steps: Seq<(Seq<RawFindingModel>, u8, Seq<char>, Seq<char>)>,
    i: int,
)
    requires
        agents >= 1,
        agents <= usize::MAX,
        0 <= i < ingest_rounds(
            TrackerModel { clusters: seq![], quorum_permille, agents, loose: seq![] },
            steps,
        ).clusters.len(),
    ensures
        ({
            let m = ingest_rounds(TrackerModel { clusters: seq![], quorum_permille, agents, loose: seq![] }, steps);
            let c = m.clusters[i];
            &&& status_of(c, m).total_agents == agents
            &&& 1 <= c.agents.len() <= step_agents(steps).len()
            &&& file_raised(steps, c.file)
            &&& (status_of(c, m).reached_quorum <==> 1000 * c.agents.len() >= quorum_permille * agents)
        }),
{
    let m0 = TrackerModel { clusters: seq![], quorum_permille, agents, loose: seq![] };
    lemma_grounded_rounds(m0, quorum_permille, agents, steps);
    let m = ingest_rounds(m0, steps);
    let c = m.clusters[i];
    vstd::seq_lib::seq_to_set_is_finite(step_names(steps));
    c.agents.unique_seq_to_set();
    assert(c.agents.to_set().subset_of(step_agents(steps))) by {
        assert forall|a: Seq<char>| c.agents.to_set().contains(a) implies step_agents(steps).contains(a) by {
            let k = choose|k: int| 0 <= k < c.agents.len() && c.agents[k] == a;
            assert(step_agents(steps).contains(c.agents[k]));
        }
    }
    vstd::set_lib::lemma_len_subset(c.agents.to_set(), step_agents(steps));
}


proof fn lemma_tokens_same(ws: Seq<Seq<char>>, vs: Seq<Seq<char>>)
    requires
        ws.len() == vs.len(),
        forall|i: int| 0 <= i < ws.len() ==> norm_token(#[trigger] ws[i]) == norm_token(vs[i]),
    ensures
        tokens_of_words(ws) == tokens_of_words(vs),
    decreases ws.len(),
{
    if ws.len() > 0 {
        lemma_tokens_same(ws.drop_last(), vs.drop_last());
        assert(norm_token(ws[ws.len() - 1]) == norm_token(vs[vs.len() - 1]));
    }
}

/// Message similarity ignores case: when two messages have word for word
/// the same lowercase forms (each word trimmed of non-alphanumeric ends and
/// lowercased), each is similar to exactly the messages the other is similar
/// to, on either side.
pub proof fn law_message_similar_ignores_case(a: Seq<char>, a2: Seq<char>, b: Seq<char>)
    requires
        words_of(a).len() == words_of(a2).len(),
        forall|i: int|
            0 <= i < words_of(a).len() ==> spec_lowercase(trim_alnum_end(trim_alnum_start(#[trigger] words_of(a)[i])))
                == spec_lowercase(trim_alnum_end(trim_alnum_start(words_of(a2)[i]))),
    ensures
        message_similar_spec(a, b) == message_similar_spec(a2, b),
        message_similar_spec(b, a) == message_similar_spec(b, a2),
{
    lemma_tokens_same(words_of(a), words_of(a2));
}

/// Calibration lowers a low-confidence finding that no other finding
/// corroborates by exactly one level (critical to warning, warning to info,
/// info stays info) and changes nothing else about it; any other finding is
/// kept as it is.
pub proof fn law_calibrate_one_level(fs: Seq<FindingModel>, i: int)
    requires
        0 <= i < fs.len(),
    ensures
        calibrate_spec(fs).len() == fs.len(),
        fs[i].confidence == Confidence::Low && lone(fs, i) ==> {
            let c = calibrate_spec(fs)[i];
            &&& (fs[i].severity == Severity::Critical ==> c.severity == Severity::Warning)
            &&& (fs[i].severity == Severity::Warning ==> c.severity == Severity::Info)
            &&& (fs[i].severity == Severity::Info ==> c.severity == Severity::Info)
            &&& c.agent == fs[i].agent && c.message == fs[i].message && c.file == fs[i].file && c.span == fs[i].span
                && c.confidence == fs[i].confidence
        },
        !(fs[i].confidence == Confidence::Low && lone(fs, i)) ==> calibrate_spec(fs)[i] == fs[i],
{
}

} // verus!
