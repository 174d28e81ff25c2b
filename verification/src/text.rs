//! Character-level text model shared by the whole library: lines, words,
//! prefixes, decimal numbers and the few std string services that are
//! trusted rather than proved.
use vstd::prelude::*;

verus! {

// ---------------------------------------------------------------------
// Characters
// ---------------------------------------------------------------------

/// The Unicode `White_Space` property, the set that `char::is_whitespace` tests.
pub open spec fn is_ws(c: char) -> bool {
    let n = c as u32;
    ||| (9 <= n && n <= 13)
    ||| n == 32
    ||| n == 0x85
    ||| n == 0xA0
    ||| n == 0x1680
    ||| (0x2000 <= n && n <= 0x200A)
    ||| n == 0x2028
    ||| n == 0x2029
    ||| n == 0x202F
    ||| n == 0x205F
    ||| n == 0x3000
}

pub fn is_whitespace(c: char) -> (r: bool)
    ensures
        r == is_ws(c),
{
    let n = c as u32;
    (9 <= n && n <= 13) || n == 32 || n == 0x85 || n == 0xA0 || n == 0x1680 || (0x2000 <= n
        && n <= 0x200A) || n == 0x2028 || n == 0x2029 || n == 0x202F || n == 0x205F || n
        == 0x3000
}

pub open spec fn is_ascii_alnum(c: char) -> bool {
    ('0' <= c && c <= '9') || ('a' <= c && c <= 'z') || ('A' <= c && c <= 'Z')
}

/// What `char::is_alphanumeric` answers for `c` (Unicode Alphabetic or Numeric).
pub uninterp spec fn spec_is_alphanumeric(c: char) -> bool;

/// Calls `char::is_alphanumeric`. Trusted: the answer is the name
/// `spec_is_alphanumeric`, and on ASCII it is exactly `[0-9A-Za-z]`.
#[verifier::external_body]
pub fn is_alphanumeric(c: char) -> (r: bool)
    ensures
        r == spec_is_alphanumeric(c),
        (c as u32) < 128 ==> (r == is_ascii_alnum(c)),
{
    c.is_alphanumeric()
}

// ---------------------------------------------------------------------
// Conversions between `str`/`String` and character vectors
// ---------------------------------------------------------------------

/// Calls `str::chars` and collects the characters. Trusted: the vector holds
/// exactly the characters of `s`, in order.
#[verifier::external_body]
pub fn chars_of(s: &str) -> (r: Vec<char>)
    ensures
        r@ == s@,
{
    s.chars().collect()
}

/// Collects characters into a `String` (std `FromIterator<char>`). Trusted:
/// the string holds exactly those characters.
#[verifier::external_body]
pub fn string_of(v: &[char]) -> (r: String)
    ensures
        r@ == v@,
{
    v.iter().collect()
}

/// Calls `String::push`. Trusted: one character is appended.
#[verifier::external_body]
pub fn push_char(s: &mut String, c: char)
    ensures
        final(s)@ == old(s)@.push(c),
{
    s.push(c)
}

/// Appends `t` to `s`.
pub fn push_str(s: &mut String, t: &str)
    ensures
        final(s)@ == old(s)@ + t@,
{
    s.append(t);
}

/// Appends the contents of `t` to `s`.
pub fn push_string(s: &mut String, t: &String)
    ensures
        final(s)@ == old(s)@ + t@,
{
    s.append(t.as_str());
}

/// What `str::to_lowercase` returns for `s` (Unicode lowercase mapping).
pub uninterp spec fn spec_lowercase(s: Seq<char>) -> Seq<char>;

/// ASCII letters lowered, every other character kept.
pub open spec fn ascii_lower(c: char) -> char {
    if 'A' <= c && c <= 'Z' {
        ((c as u32) + 32) as char
    } else {
        c
    }
}

/// Calls `str::to_lowercase`. Trusted: the result is the name `spec_lowercase`
/// applied to the characters of `s`; on a text of ASCII characters alone it
/// lowers each letter and keeps every other character (ASCII letters map to
/// ASCII letters in the Unicode lowercase mapping).
#[verifier::external_body]
pub fn to_lowercase(s: &str) -> (r: String)
    ensures
        r@ == spec_lowercase(s@),
        (forall|i: int| 0 <= i < s@.len() ==> (#[trigger] s@[i] as u32) < 128) ==> r@ == s@.map_values(
            |c: char| ascii_lower(c),
        ),
{
    s.to_lowercase()
}

// ---------------------------------------------------------------------
// Prefixes and substrings
// ---------------------------------------------------------------------

pub open spec fn starts_with(s: Seq<char>, p: Seq<char>) -> bool {
    p.len() <= s.len() && s.subrange(0, p.len() as int) == p
}

pub open spec fn ends_with(s: Seq<char>, p: Seq<char>) -> bool {
    p.len() <= s.len() && s.subrange(s.len() - p.len(), s.len() as int) == p
}

/// `p` occurs in `s` starting at index `i`.
pub open spec fn occurs_at(s: Seq<char>, p: Seq<char>, i: int) -> bool {
    0 <= i && i + p.len() <= s.len() && s.subrange(i, i + p.len()) == p
}

pub open spec fn contains_seq(s: Seq<char>, p: Seq<char>) -> bool {
    exists|i: int| occurs_at(s, p, i)
}

pub fn has_prefix(s: &[char], p: &[char]) -> (r: bool)
    ensures
        r == starts_with(s@, p@),
{
    if p.len() > s.len() {
        return false;
    }
    let mut i: usize = 0;
    while i < p.len()
        invariant
            p@.len() <= s@.len(),
            i <= p@.len(),
            forall|k: int| 0 <= k < i ==> s@[k] == p@[k],
        decreases p.len() - i,
    {
        if s[i] != p[i] {
            assert(s@.subrange(0, p@.len() as int)[i as int] != p@[i as int]);
            return false;
        }
        i += 1;
    }
    assert(s@.subrange(0, p@.len() as int) =~= p@);
    true
}

/// Are the two character sequences equal?
pub fn chars_eq(a: &[char], b: &[char]) -> (r: bool)
    ensures
        r == (a@ == b@),
{
    if a.len() != b.len() {
        return false;
    }
    let mut i: usize = 0;
    while i < a.len()
        invariant
            a@.len() == b@.len(),
            i <= a@.len(),
            forall|k: int| 0 <= k < i ==> a@[k] == b@[k],
        decreases a.len() - i,
    {
        if a[i] != b[i] {
            return false;
        }
        i += 1;
    }
    assert(a@ =~= b@);
    true
}

/// Do the two strings hold the same characters?
pub fn str_eq(a: &str, b: &str) -> (r: bool)
    ensures
        r == (a@ == b@),
{
    let x = chars_of(a);
    let y = chars_of(b);
    chars_eq(x.as_slice(), y.as_slice())
}

pub fn has_suffix(s: &[char], p: &[char]) -> (r: bool)
    ensures
        r == ends_with(s@, p@),
{
    if p.len() > s.len() {
        return false;
    }
    let off = s.len() - p.len();
    let mut i: usize = 0;
    while i < p.len()
        invariant
            p@.len() <= s@.len(),
            s@.len() <= usize::MAX,
            off == s@.len() - p@.len(),
            i <= p@.len(),
            forall|k: int| 0 <= k < i ==> s@[off + k] == p@[k],
        decreases p.len() - i,
    {
        if s[off + i] != p[i] {
            assert(s@.subrange(off as int, s@.len() as int)[i as int] != p@[i as int]);
            return false;
        }
        i += 1;
    }
    assert(s@.subrange(off as int, s@.len() as int) =~= p@);
    true
}

/// Does `p` occur in `s` at index `i`?
pub fn occurs_at_exec(s: &[char], p: &[char], i: usize) -> (r: bool)
    ensures
        r == occurs_at(s@, p@, i as int),
{
    if i > s.len() || p.len() > s.len() - i {
        return false;
    }
    let mut k: usize = 0;
    while k < p.len()
        invariant
            i + p@.len() <= s@.len(),
            s@.len() <= usize::MAX,
            k <= p@.len(),
            forall|j: int| 0 <= j < k ==> s@[i + j] == p@[j],
        decreases p.len() - k,
    {
        if s[i + k] != p[k] {
            assert(s@.subrange(i as int, i + p@.len())[k as int] != p@[k as int]);
            return false;
        }
        k += 1;
    }
    assert(s@.subrange(i as int, i + p@.len()) =~= p@);
    true
}

/// The first index at or after `from` where `p` occurs, if any.
pub open spec fn first_occurrence_from(s: Seq<char>, p: Seq<char>, from: int) -> Option<int> {
    if exists|i: int| from <= i && occurs_at(s, p, i) {
        Some(
            choose|i: int|
                from <= i && occurs_at(s, p, i) && forall|j: int|
                    from <= j < i ==> !occurs_at(s, p, j),
        )
    } else {
        None
    }
}

/// Finds the first occurrence of `p` in `s` at or after `from`.
pub fn find_from(s: &[char], p: &[char], from: usize) -> (r: Option<usize>)
    ensures
        match r {
            Some(i) => from <= i && occurs_at(s@, p@, i as int) && forall|j: int|
                from <= j < i ==> !occurs_at(s@, p@, j),
            None => forall|j: int| from <= j ==> !occurs_at(s@, p@, j),
        },
{
    if from > s.len() {
        return None;
    }
    let mut i = from;
    while i < s.len()
        invariant
            from <= i <= s@.len(),
            forall|j: int| from <= j < i ==> !occurs_at(s@, p@, j),
        decreases s.len() - i,
    {
        if occurs_at_exec(s, p, i) {
            return Some(i);
        }
        i += 1;
    }
    if occurs_at_exec(s, p, i) {
        return Some(i);
    }
    None
}

/// Does `p` occur anywhere in `s`?
pub fn contains_exec(s: &[char], p: &[char]) -> (r: bool)
    ensures
        r == contains_seq(s@, p@),
{
    match find_from(s, p, 0) {
        Some(i) => true,
        None => false,
    }
}

// ---------------------------------------------------------------------
// Lines (`str::lines`)
// ---------------------------------------------------------------------

/// The pieces of `s` between `'\n'` characters (always at least one piece).
pub open spec fn split_nl(s: Seq<char>) -> Seq<Seq<char>>
    decreases s.len(),
{
    if s.len() == 0 {
        seq![Seq::<char>::empty()]
    } else {
        let p = split_nl(s.drop_last());
        if s.last() == '\n' {
            p.push(Seq::<char>::empty())
        } else {
            p.update(p.len() - 1, p.last().push(s.last()))
        }
    }
}

pub proof fn lemma_split_nl_nonempty(s: Seq<char>)
    ensures
        split_nl(s).len() >= 1,
    decreases s.len(),
{
    if s.len() > 0 {
        lemma_split_nl_nonempty(s.drop_last());
    }
}

/// The pieces of `s` between occurrences of `c` (always at least one piece),
/// as `str::split` with a character pattern yields them.
pub open spec fn split_on(s: Seq<char>, c: char) -> Seq<Seq<char>>
    decreases s.len(),
{
    if s.len() == 0 {
        seq![Seq::<char>::empty()]
    } else {
        let p = split_on(s.drop_last(), c);
        if s.last() == c {
            p.push(Seq::<char>::empty())
        } else {
            p.update(p.len() - 1, p.last().push(s.last()))
        }
    }
}

pub proof fn lemma_split_on_nonempty(s: Seq<char>, c: char)
    ensures
        split_on(s, c).len() >= 1,
    decreases s.len(),
{
    if s.len() > 0 {
        lemma_split_on_nonempty(s.drop_last(), c);
    }
}

/// Splits `s` at every `c`, as `str::split` does.
pub fn split_char(s: &[char], c: char) -> (r: Vec<Vec<char>>)
    ensures
        seqs(r@) == split_on(s@, c),
        r@.len() >= 1,
{
    let mut done: Vec<Vec<char>> = Vec::new();
    let mut cur: Vec<char> = Vec::new();
    let mut i: usize = 0;
    while i < s.len()
        invariant
            i <= s@.len(),
            seqs(done@).push(cur@) == split_on(s@.take(i as int), c),
        decreases s.len() - i,
    {
        let x = s[i];
        let ghost p = split_on(s@.take(i as int), c);
        proof {
            assert(s@.take(i + 1).drop_last() =~= s@.take(i as int));
            lemma_split_on_nonempty(s@.take(i as int), c);
        }
        if x == c {
            let ghost old_done = done@;
            done.push(cur);
            cur = Vec::new();
            proof {
                assert(seqs(done@) =~= seqs(old_done).push(p.last()));
                assert(seqs(done@) =~= p);
                assert(seqs(done@).push(cur@) =~= p.push(Seq::<char>::empty()));
            }
        } else {
            cur.push(x);
            proof {
                assert(seqs(done@).push(cur@) =~= p.update(p.len() - 1, p.last().push(x)));
            }
        }
        i += 1;
    }
    assert(s@.take(s@.len() as int) =~= s@);
    let ghost before = done@;
    done.push(cur);
    assert(seqs(done@) =~= seqs(before).push(cur@));
    done
}

/// Drops one trailing `'\r'`.
pub open spec fn strip_cr(l: Seq<char>) -> Seq<char> {
    if l.len() > 0 && l.last() == '\r' {
        l.drop_last()
    } else {
        l
    }
}

/// The lines of `s` as `str::lines` yields them: split at `'\n'`, a `'\r'`
/// before a `'\n'` removed, and no empty line after a final `'\n'`.
pub open spec fn lines_of(s: Seq<char>) -> Seq<Seq<char>> {
    let p = split_nl(s);
    let q = if p.last().len() == 0 {
        p.drop_last()
    } else {
        p
    };
    q.map(|k: int, l: Seq<char>| if k < p.len() - 1 { strip_cr(l) } else { l })
}

fn strip_cr_exec(l: Vec<char>) -> (r: Vec<char>)
    ensures
        r@ == strip_cr(l@),
{
    let mut l = l;
    if l.len() > 0 && l[l.len() - 1] == '\r' {
        l.pop();
    }
    l
}

/// The character sequences held by a vector of character vectors.
pub open spec fn seqs(v: Seq<Vec<char>>) -> Seq<Seq<char>> {
    v.map_values(|x: Vec<char>| x@)
}

/// Splits `s` into its lines, exactly as `str::lines` does.
pub fn lines(s: &[char]) -> (r: Vec<Vec<char>>)
    ensures
        seqs(r@) == lines_of(s@),
{
    let mut done: Vec<Vec<char>> = Vec::new();
    let mut cur: Vec<char> = Vec::new();
    let mut i: usize = 0;
    while i < s.len()
        invariant
            i <= s@.len(),
            seqs(done@).push(cur@) == split_nl(s@.take(i as int)),
        decreases s.len() - i,
    {
        let c = s[i];
        let ghost p = split_nl(s@.take(i as int));
        proof {
            assert(s@.take(i + 1).drop_last() =~= s@.take(i as int));
            lemma_split_nl_nonempty(s@.take(i as int));
        }
        if c == '\n' {
            let ghost old_done = done@;
            done.push(cur);
            cur = Vec::new();
            proof {
                assert(seqs(done@) =~= seqs(old_done).push(p.last()));
                assert(seqs(done@) =~= p);
                assert(seqs(done@).push(cur@) =~= p.push(Seq::<char>::empty()));
            }
        } else {
            cur.push(c);
            proof {
                assert(seqs(done@).push(cur@) =~= p.update(p.len() - 1, p.last().push(c)));
            }
        }
        i += 1;
    }
    assert(s@.take(s@.len() as int) =~= s@);
    let ghost p = split_nl(s@);
    let ghost q = if p.last().len() == 0 {
        p.drop_last()
    } else {
        p
    };
    let ghost m = q.map(|j: int, l: Seq<char>| if j < p.len() - 1 { strip_cr(l) } else { l });
    let n = done.len();
    let mut out: Vec<Vec<char>> = Vec::new();
    let mut k: usize = 0;
    while k < n
        invariant
            n == done@.len(),
            p == seqs(done@).push(cur@),
            p.len() == n + 1,
            m.len() == q.len(),
            q.len() >= n,
            forall|j: int| 0 <= j < n ==> q[j] == p[j],
            m == q.map(|j: int, l: Seq<char>| if j < p.len() - 1 { strip_cr(l) } else { l }),
            k <= n,
            seqs(out@) =~= m.take(k as int),
        decreases n - k,
    {
        let ghost dk = done@[k as int]@;
        assert(p[k as int] == dk);
        let dcl = done[k].clone();
        assert(dcl@ == dk);
        let line = strip_cr_exec(dcl);
        assert(m[k as int] == strip_cr(q[k as int]));
        let ghost old_out = out@;
        out.push(line);
        assert(seqs(out@) =~= seqs(old_out).push(m[k as int]));
        k += 1;
        assert(seqs(out@) =~= m.take(k as int));
    }
    let ghost before = out@;
    if cur.len() > 0 {
        out.push(cur);
        proof {
            assert(m[n as int] == q[n as int]);
            assert(seqs(out@) =~= seqs(before).push(m[n as int]));
        }
    }
    proof {
        assert(m =~= lines_of(s@));
        assert(seqs(out@) =~= lines_of(s@));
    }
    out
}

// ---------------------------------------------------------------------
// Whitespace: `trim` and `split_whitespace`
// ---------------------------------------------------------------------

/// The non-empty runs of non-whitespace characters of `s`, in order.
pub open spec fn words_of(s: Seq<char>) -> Seq<Seq<char>>
    decreases s.len(),
{
    if s.len() == 0 {
        Seq::empty()
    } else {
        let w = words_of(s.drop_last());
        let c = s.last();
        if is_ws(c) {
            w
        } else if s.len() >= 2 && !is_ws(s[s.len() - 2]) {
            w.update(w.len() - 1, w.last().push(c))
        } else {
            w.push(seq![c])
        }
    }
}

pub proof fn lemma_words_nonempty(s: Seq<char>)
    ensures
        s.len() > 0 && !is_ws(s.last()) ==> words_of(s).len() > 0,
    decreases s.len(),
{
    if s.len() > 0 {
        lemma_words_nonempty(s.drop_last());
    }
}

/// Splits `s` at Unicode whitespace, dropping empty pieces (`str::split_whitespace`).
pub fn words(s: &[char]) -> (r: Vec<Vec<char>>)
    ensures
        seqs(r@) == words_of(s@),
{
    let mut out: Vec<Vec<char>> = Vec::new();
    let mut cur: Vec<char> = Vec::new();
    let mut i: usize = 0;
    while i < s.len()
        invariant
            i <= s@.len(),
            i > 0 && !is_ws(s@[i - 1]) ==> cur@.len() > 0 && seqs(out@).push(cur@)
                == words_of(s@.take(i as int)),
            !(i > 0 && !is_ws(s@[i - 1])) ==> cur@.len() == 0 && seqs(out@) == words_of(
                s@.take(i as int),
            ),
        decreases s.len() - i,
    {
        let c = s[i];
        proof {
            assert(s@.take(i + 1).drop_last() =~= s@.take(i as int));
            assert(s@.take(i + 1).last() == c);
            if i > 0 {
                assert(s@.take(i + 1)[i - 1] == s@[i - 1]);
                assert(s@.take(i as int).last() == s@[i - 1]);
                lemma_words_nonempty(s@.take(i as int));
            }
        }
        if is_whitespace(c) {
            if cur.len() > 0 {
                let ghost old_out = out@;
                let ghost old_cur = cur@;
                out.push(cur);
                cur = Vec::new();
                proof {
                    assert(seqs(out@) =~= seqs(old_out).push(old_cur));
                }
            }
        } else {
            let ghost old_cur = cur@;
            cur.push(c);
            proof {
                let w = words_of(s@.take(i as int));
                assert(cur@ =~= old_cur.push(c));
                if i > 0 && !is_ws(s@[i - 1]) {
                    assert(seqs(out@).push(cur@) =~= w.update(w.len() - 1, w.last().push(c)));
                } else {
                    assert(cur@ =~= seq![c]);
                    assert(seqs(out@).push(cur@) =~= w.push(seq![c]));
                }
            }
        }
        i += 1;
    }
    assert(s@.take(s@.len() as int) =~= s@);
    if cur.len() > 0 {
        out.push(cur);
    }
    out
}

/// `ws` joined with `sep` between consecutive elements.
pub open spec fn join_with(ws: Seq<Seq<char>>, sep: Seq<char>) -> Seq<char>
    decreases ws.len(),
{
    if ws.len() == 0 {
        Seq::empty()
    } else if ws.len() == 1 {
        ws[0]
    } else {
        join_with(ws.drop_last(), sep) + sep + ws.last()
    }
}

/// Joins `ws` with `sep` (`[T]::join`).
pub fn join(ws: &Vec<Vec<char>>, sep: &[char]) -> (r: Vec<char>)
    ensures
        r@ == join_with(seqs(ws@), sep@),
{
    let mut out: Vec<char> = Vec::new();
    let mut i: usize = 0;
    while i < ws.len()
        invariant
            i <= ws@.len(),
            out@ == join_with(seqs(ws@).take(i as int), sep@),
        decreases ws.len() - i,
    {
        proof {
            assert(seqs(ws@).take(i + 1).drop_last() =~= seqs(ws@).take(i as int));
        }
        if i > 0 {
            let mut j: usize = 0;
            let ghost base = out@;
            while j < sep.len()
                invariant
                    j <= sep@.len(),
                    out@ == base + sep@.take(j as int),
                decreases sep.len() - j,
            {
                out.push(sep[j]);
                j += 1;
                assert(out@ =~= base + sep@.take(j as int));
            }
            assert(sep@.take(sep@.len() as int) =~= sep@);
        }
        let w = &ws[i];
        let mut j: usize = 0;
        let ghost base = out@;
        while j < w.len()
            invariant
                j <= w@.len(),
                out@ == base + w@.take(j as int),
            decreases w.len() - j,
        {
            out.push(w[j]);
            j += 1;
            assert(out@ =~= base + w@.take(j as int));
        }
        assert(w@.take(w@.len() as int) =~= w@);
        proof {
            if i == 0 {
                assert(out@ =~= seqs(ws@).take(1)[0]);
            }
        }
        i += 1;
    }
    assert(seqs(ws@).take(ws@.len() as int) =~= seqs(ws@));
    out
}

/// Leading and trailing whitespace removed (`str::trim`).
pub open spec fn trim_start_of(s: Seq<char>) -> Seq<char>
    decreases s.len(),
{
    if s.len() > 0 && is_ws(s[0]) {
        trim_start_of(s.drop_first())
    } else {
        s
    }
}

pub open spec fn trim_end_of(s: Seq<char>) -> Seq<char>
    decreases s.len(),
{
    if s.len() > 0 && is_ws(s.last()) {
        trim_end_of(s.drop_last())
    } else {
        s
    }
}

pub open spec fn trim_of(s: Seq<char>) -> Seq<char> {
    trim_end_of(trim_start_of(s))
}

pub fn trim(s: &[char]) -> (r: Vec<char>)
    ensures
        r@ == trim_of(s@),
{
    let mut a: usize = 0;
    assert(s@.skip(0) =~= s@);
    while a < s.len() && is_whitespace(s[a])
        invariant
            a <= s@.len(),
            trim_start_of(s@) == trim_start_of(s@.skip(a as int)),
        decreases s.len() - a,
    {
        assert(s@.skip(a as int).drop_first() =~= s@.skip(a + 1));
        a += 1;
    }
    let mut b: usize = s.len();
    proof {
        assert(s@.skip(a as int).take((b - a) as int) =~= s@.skip(a as int));
    }
    while b > a && is_whitespace(s[b - 1])
        invariant
            a <= b <= s@.len(),
            trim_start_of(s@) == s@.skip(a as int),
            trim_of(s@) == trim_end_of(s@.subrange(a as int, b as int)),
        decreases b,
    {
        assert(s@.subrange(a as int, b as int).drop_last() =~= s@.subrange(a as int, b - 1));
        b -= 1;
    }
    proof {
        assert(s@.skip(a as int) =~= s@.subrange(a as int, s@.len() as int));
        if a < s@.len() {
            assert(s@.skip(a as int)[0] == s@[a as int]);
        }
    }
    slice_range(s, a, b)
}

/// The characters `s[a..b]`.
pub fn slice_range(s: &[char], a: usize, b: usize) -> (r: Vec<char>)
    requires
        a <= b <= s@.len(),
    ensures
        r@ == s@.subrange(a as int, b as int),
{
    let mut out: Vec<char> = Vec::new();
    let mut i = a;
    while i < b
        invariant
            a <= i <= b <= s@.len(),
            out@ == s@.subrange(a as int, i as int),
        decreases b - i,
    {
        out.push(s[i]);
        i += 1;
        assert(out@ =~= s@.subrange(a as int, i as int));
    }
    out
}

// ---------------------------------------------------------------------
// Decimal numbers
// ---------------------------------------------------------------------

pub open spec fn digit_char(d: nat) -> char {
    if d == 0 {
        '0'
    } else if d == 1 {
        '1'
    } else if d == 2 {
        '2'
    } else if d == 3 {
        '3'
    } else if d == 4 {
        '4'
    } else if d == 5 {
        '5'
    } else if d == 6 {
        '6'
    } else if d == 7 {
        '7'
    } else if d == 8 {
        '8'
    } else {
        '9'
    }
}

/// The decimal digits of `n`, as `n.to_string()` writes them.
pub open spec fn decimal(n: nat) -> Seq<char>
    decreases n,
{
    if n < 10 {
        seq![digit_char(n)]
    } else {
        decimal(n / 10).push(digit_char(n % 10))
    }
}

fn digit_exec(d: u64) -> (c: char)
    requires
        d < 10,
    ensures
        c == digit_char(d as nat),
{
    if d == 0 {
        '0'
    } else if d == 1 {
        '1'
    } else if d == 2 {
        '2'
    } else if d == 3 {
        '3'
    } else if d == 4 {
        '4'
    } else if d == 5 {
        '5'
    } else if d == 6 {
        '6'
    } else if d == 7 {
        '7'
    } else if d == 8 {
        '8'
    } else {
        '9'
    }
}

/// Writes `n` in decimal.
pub fn decimal_exec(n: u64) -> (r: Vec<char>)
    ensures
        r@ == decimal(n as nat),
    decreases n,
{
    if n < 10 {
        let mut v = Vec::new();
        v.push(digit_exec(n));
        v
    } else {
        let mut v = decimal_exec(n / 10);
        v.push(digit_exec(n % 10));
        v
    }
}

/// Appends `n` in decimal to `s`.
pub fn push_decimal(s: &mut String, n: u64)
    ensures
        final(s)@ == old(s)@ + decimal(n as nat),
{
    let d = decimal_exec(n);
    let t = string_of(d.as_slice());
    push_string(s, &t);
}

pub open spec fn is_digit(c: char) -> bool {
    '0' <= c && c <= '9'
}

pub open spec fn digit_value(c: char) -> nat {
    (c as u32 - '0' as u32) as nat
}

/// The value of a non-empty run of decimal digits.
pub open spec fn digits_value(s: Seq<char>) -> nat
    decreases s.len(),
{
    if s.len() == 0 {
        0
    } else {
        digits_value(s.drop_last()) * 10 + digit_value(s.last())
    }
}

pub open spec fn all_digits(s: Seq<char>) -> bool {
    forall|i: int| 0 <= i < s.len() ==> is_digit(#[trigger] s[i])
}

/// What `s.parse::<u32>()` accepts: an optional `'+'`, then one or more
/// decimal digits whose value fits in a `u32`.
pub open spec fn parse_u32_spec(s: Seq<char>) -> Option<u32> {
    let body = if s.len() > 0 && s[0] == '+' {
        s.drop_first()
    } else {
        s
    };
    if body.len() > 0 && all_digits(body) && digits_value(body) <= u32::MAX {
        Some(digits_value(body) as u32)
    } else {
        None
    }
}

pub proof fn lemma_digits_value_monotone(s: Seq<char>, k: int)
    requires
        0 <= k <= s.len(),
        all_digits(s),
    ensures
        digits_value(s.take(k)) <= digits_value(s),
    decreases s.len() - k,
{
    if k < s.len() {
        lemma_digits_value_monotone(s, k + 1);
        assert(s.take(k + 1).drop_last() =~= s.take(k));
    } else {
        assert(s.take(k) =~= s);
    }
}

/// Parses a `u32` as `str::parse::<u32>` does.
pub fn parse_u32(s: &[char]) -> (r: Option<u32>)
    ensures
        r == parse_u32_spec(s@),
{
    let start: usize = if s.len() > 0 && s[0] == '+' {
        1
    } else {
        0
    };
    let ghost body = s@.skip(start as int);
    proof {
        if s@.len() > 0 && s@[0] == '+' {
            assert(body =~= s@.drop_first());
        } else {
            assert(body =~= s@);
        }
    }
    if start >= s.len() {
        assert(body.len() == 0);
        return None;
    }
    let mut acc: u64 = 0;
    let mut i = start;
    while i < s.len()
        invariant
            start <= i <= s@.len(),
            start < s@.len(),
            body == s@.skip(start as int),
            body == (if s@.len() > 0 && s@[0] == '+' {
                s@.drop_first()
            } else {
                s@
            }),
            all_digits(body.take(i - start)),
            acc == digits_value(body.take(i - start)),
            acc <= u32::MAX,
        decreases s.len() - i,
    {
        let c = s[i];
        let ghost pre = body.take(i - start);
        proof {
            assert(body.take(i + 1 - start).drop_last() =~= pre);
            assert(body.take(i + 1 - start).last() == c);
        }
        if !('0' <= c && c <= '9') {
            proof {
                assert(!is_digit(body[i - start]));
                assert(!all_digits(body));
            }
            return None;
        }
        let d = (c as u32 - '0' as u32) as u64;
        acc = acc * 10 + d;
        if acc > 0xFFFF_FFFF {
            proof {
                if all_digits(body) {
                    lemma_digits_value_monotone(body, i + 1 - start);
                }
            }
            return None;
        }
        i += 1;
    }
    assert(body.take(s@.len() - start) =~= body);
    Some(acc as u32)
}

} // verus!
