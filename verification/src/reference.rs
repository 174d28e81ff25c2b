//! Symbols touched by a diff, the hunk ranges of a unified diff, and the
//! order in which files are searched for references to those symbols.
use vstd::prelude::*;
use std::cmp::Ordering;
use crate::order::{chars_lt, compare_chars, Order3, Preorder, sort_by_before, sorted_by_before};
use crate::order::{lemma_chars_lt_irrefl, lemma_chars_lt_trans, lemma_chars_lt_total, lemma_chars_lt_asym};
use crate::text::{str_eq,
    chars_eq, chars_of, contains_exec, contains_seq, has_prefix, lines, lines_of, parse_u32,
    parse_u32_spec, seqs, slice_range, split_char, split_on, starts_with, string_of, trim, trim_of,
    lemma_split_on_nonempty,
};

verus! {

#[derive(Clone, Copy, Debug, PartialEq, Eq, Structural)]
pub enum SymbolKind {
    Function,
    Struct,
    Trait,
    Impl,
    Constant,
}

/// A named item of a changed file.
#[derive(Clone, Debug)]
pub struct Symbol {
    pub name: String,
    pub kind: SymbolKind,
    pub file: String,
}

/// A line of a file that mentions a symbol.
#[derive(Clone, Debug)]
pub struct Reference {
    pub symbol: String,
    pub file: String,
    pub line: u32,
    pub snippet: String,
}

pub struct ReferenceCollector;

/// The new-file lines `start..=end` that a hunk covers.
#[derive(Clone, Copy, Debug, PartialEq, Eq, Structural)]
pub struct LineRange {
    pub start: u32,
    pub end: u32,
}

// ---------------------------------------------------------------------
// Hunk headers
// ---------------------------------------------------------------------

pub open spec fn is_plus_part(p: Seq<char>) -> bool {
    p.len() > 0 && p[0] == '+'
}

/// The first of `parts[i..]` that starts with `'+'`.
pub open spec fn first_plus_from(parts: Seq<Seq<char>>, i: int) -> Option<Seq<char>>
    decreases parts.len() - i,
{
    if i < 0 || i >= parts.len() {
        None
    } else if is_plus_part(parts[i]) {
        Some(parts[i])
    } else {
        first_plus_from(parts, i + 1)
    }
}

/// `s` without its leading `'+'` characters.
pub open spec fn trim_plus(s: Seq<char>) -> Seq<char>
    decreases s.len(),
{
    if s.len() > 0 && s[0] == '+' {
        trim_plus(s.drop_first())
    } else {
        s
    }
}

/// Start and length of the new-file side of a hunk header such as
/// `@@ -3,1 +10,4 @@`: the first space-separated part that starts with `'+'`,
/// its leading `'+'` removed, split at `','`; a missing length is 1.
pub open spec fn hunk_numbers(line: Seq<char>) -> Option<(u32, u32)> {
    match first_plus_from(split_on(line, ' '), 0) {
        None => None,
        Some(part) => {
            let pieces = split_on(trim_plus(part), ',');
            let len = if pieces.len() > 1 {
                parse_u32_spec(pieces[1])
            } else {
                Some(1u32)
            };
            match (parse_u32_spec(pieces[0]), len) {
                (Some(s), Some(l)) => Some((s, l)),
                _ => None,
            }
        },
    }
}

/// The last line a hunk of `len` lines starting at `start` covers (the start
/// itself for an empty hunk).
pub open spec fn hunk_end(start: u32, len: u32) -> int {
    if len == 0 {
        start as int
    } else {
        start + len - 1
    }
}

/// The hunk's last line fits in a `u32`.
pub open spec fn hunk_fits(line: Seq<char>) -> bool {
    match hunk_numbers(line) {
        Some((s, l)) => hunk_end(s, l) <= u32::MAX,
        None => true,
    }
}

pub open spec fn hunk_range_spec(line: Seq<char>) -> Option<LineRange> {
    match hunk_numbers(line) {
        Some((s, l)) => Some(LineRange { start: s, end: hunk_end(s, l) as u32 }),
        None => None,
    }
}

/// A parsed hunk range never ends before it starts, and it covers exactly
/// the hunk's lines when the hunk has any.
pub proof fn law_hunk_range_ordered(line: Seq<char>)
    requires
        hunk_fits(line),
    ensures
        hunk_range_spec(line) matches Some(r) ==> r.start <= r.end,
        hunk_numbers(line) matches Some((s, l)) ==> (l > 0 ==> hunk_range_spec(line)->0.end - hunk_range_spec(
            line,
        )->0.start + 1 == l),
{
}

fn trim_plus_exec(s: &[char]) -> (r: Vec<char>)
    ensures
        r@ == trim_plus(s@),
{
    let mut j: usize = 0;
    assert(s@.subrange(0, s@.len() as int) =~= s@);
    while j < s.len() && s[j] == '+'
        invariant
            j <= s@.len(),
            trim_plus(s@) == trim_plus(s@.subrange(j as int, s@.len() as int)),
        decreases s.len() - j,
    {
        assert(s@.subrange(j as int, s@.len() as int).drop_first() =~= s@.subrange(
            j + 1,
            s@.len() as int,
        ));
        j += 1;
    }
    slice_range(s, j, s.len())
}

/// Parses the new-file range of a hunk header.
pub fn parse_hunk_range(line: &str) -> (r: Option<LineRange>)
    requires
        hunk_fits(line@),
    ensures
        r == hunk_range_spec(line@),
{
    let chars = chars_of(line);
    let parts = split_char(chars.as_slice(), ' ');
    let mut i: usize = 0;
    while i < parts.len() && !(parts[i].len() > 0 && parts[i][0] == '+')
        invariant
            i <= parts@.len(),
            seqs(parts@) == split_on(line@, ' '),
            first_plus_from(seqs(parts@), 0) == first_plus_from(seqs(parts@), i as int),
        decreases parts.len() - i,
    {
        assert(seqs(parts@)[i as int] == parts@[i as int]@);
        i += 1;
    }
    if i == parts.len() {
        return None;
    }
    assert(seqs(parts@)[i as int] == parts@[i as int]@);
    let trimmed = trim_plus_exec(parts[i].as_slice());
    let pieces = split_char(trimmed.as_slice(), ',');
    assert(seqs(pieces@)[0] == pieces@[0]@);
    let start = match parse_u32(pieces[0].as_slice()) {
        Some(s) => s,
        None => {
            return None;
        },
    };
    let len = if pieces.len() > 1 {
        assert(seqs(pieces@)[1] == pieces@[1]@);
        match parse_u32(pieces[1].as_slice()) {
            Some(l) => l,
            None => {
                return None;
            },
        }
    } else {
        1u32
    };
    let end = if len == 0 {
        start
    } else {
        start + (len - 1)
    };
    Some(LineRange { start, end })
}

/// Whether a hunk header's last line fits in a `u32` (what
/// `parse_hunk_range` needs).
pub fn hunk_fits_exec(line: &str) -> (r: bool)
    ensures
        r == hunk_fits(line@),
{
    let chars = chars_of(line);
    let parts = split_char(chars.as_slice(), ' ');
    let mut i: usize = 0;
    while i < parts.len() && !(parts[i].len() > 0 && parts[i][0] == '+')
        invariant
            i <= parts@.len(),
            seqs(parts@) == split_on(line@, ' '),
            first_plus_from(seqs(parts@), 0) == first_plus_from(seqs(parts@), i as int),
        decreases parts.len() - i,
    {
        assert(seqs(parts@)[i as int] == parts@[i as int]@);
        i += 1;
    }
    if i == parts.len() {
        return true;
    }
    assert(seqs(parts@)[i as int] == parts@[i as int]@);
    let trimmed = trim_plus_exec(parts[i].as_slice());
    let pieces = split_char(trimmed.as_slice(), ',');
    assert(seqs(pieces@)[0] == pieces@[0]@);
    let start = match parse_u32(pieces[0].as_slice()) {
        Some(s) => s,
        None => {
            return true;
        },
    };
    let len = if pieces.len() > 1 {
        assert(seqs(pieces@)[1] == pieces@[1]@);
        match parse_u32(pieces[1].as_slice()) {
            Some(l) => l,
            None => {
                return true;
            },
        }
    } else {
        1u32
    };
    len == 0 || (start as u64) + (len as u64) - 1 <= 0xffff_ffffu64
}

/// Every line of the diff that starts a hunk has a header that fits.
pub open spec fn hunk_lines_fit(diff: Seq<char>) -> bool {
    let ls = lines_of(diff);
    forall|i: int| 0 <= i < ls.len() && starts_with(#[trigger] ls[i], hunk_marker()) ==> hunk_fits(ls[i])
}

/// Every hunk header of the diff fits, so `parse_diff_ranges` may read it.
pub fn all_hunks_fit(diff: &str) -> (r: bool)
    ensures
        r == hunk_lines_fit(diff@),
        r ==> diff_fits(diff@),
{
    let chars = chars_of(diff);
    let ls = lines(chars.as_slice());
    let marker = chars_of("@@");
    assert(marker@ =~= hunk_marker()) by {
        reveal_strlit("@@");
    }
    let mut i: usize = 0;
    while i < ls.len()
        invariant
            i <= ls@.len(),
            seqs(ls@) == lines_of(diff@),
            marker@ == hunk_marker(),
            forall|k: int| 0 <= k < i && starts_with(#[trigger] seqs(ls@)[k], hunk_marker()) ==> hunk_fits(seqs(ls@)[k]),
        decreases ls.len() - i,
    {
        assert(seqs(ls@)[i as int] == ls@[i as int]@);
        if has_prefix(ls[i].as_slice(), marker.as_slice()) {
            let l = string_of(ls[i].as_slice());
            if !hunk_fits_exec(l.as_str()) {
                assert(starts_with(seqs(ls@)[i as int], hunk_marker()) && !hunk_fits(seqs(ls@)[i as int]));
                return false;
            }
        }
        i += 1;
    }
    true
}

// ---------------------------------------------------------------------
// Path components (as `Path::components` yields them)
// ---------------------------------------------------------------------

pub open spec fn is_dot(s: Seq<char>) -> bool {
    s.len() == 1 && s[0] == '.'
}

/// The non-empty segments other than `"."`.
pub open spec fn normal_parts(segs: Seq<Seq<char>>) -> Seq<Seq<char>>
    decreases segs.len(),
{
    if segs.len() == 0 {
        seq![]
    } else {
        let p = normal_parts(segs.drop_last());
        let l = segs.last();
        if l.len() > 0 && !is_dot(l) {
            p.push(l)
        } else {
            p
        }
    }
}

/// The components of a `/`-separated path: a root `"/"` for an absolute path,
/// a `"."` for a relative path whose first segment is `"."`, then each
/// non-empty segment other than `"."`.
pub open spec fn components(p: Seq<char>) -> Seq<Seq<char>> {
    let segs = split_on(p, '/');
    if p.len() > 0 && p[0] == '/' {
        seq![seq!['/']] + normal_parts(segs)
    } else if is_dot(segs[0]) {
        seq![seq!['.']] + normal_parts(segs)
    } else {
        normal_parts(segs)
    }
}

/// The components of the path's parent directory (none for a root or an
/// empty path).
pub open spec fn parent_components(p: Seq<char>) -> Seq<Seq<char>> {
    let c = components(p);
    if c.len() > 0 {
        c.drop_last()
    } else {
        c
    }
}

pub fn path_components(p: &[char]) -> (r: Vec<Vec<char>>)
    ensures
        seqs(r@) == components(p@),
{
    let segs = split_char(p, '/');
    let mut out: Vec<Vec<char>> = Vec::new();
    let ghost lead: Seq<Seq<char>> = seq![];
    let absolute = p.len() > 0 && p[0] == '/';
    assert(seqs(segs@)[0] == segs@[0]@);
    if absolute {
        let mut root: Vec<char> = Vec::new();
        root.push('/');
        out.push(root);
        proof {
            lead = seq![seq!['/']];
        }
    } else if segs[0].len() == 1 && segs[0][0] == '.' {
        let mut dot: Vec<char> = Vec::new();
        dot.push('.');
        out.push(dot);
        proof {
            lead = seq![seq!['.']];
        }
    }
    assert(seqs(out@) =~= lead);
    let mut i: usize = 0;
    while i < segs.len()
        invariant
            i <= segs@.len(),
            seqs(segs@) == split_on(p@, '/'),
            seqs(out@) == lead + normal_parts(seqs(segs@).take(i as int)),
        decreases segs.len() - i,
    {
        let ghost before = out@;
        assert(seqs(segs@).take(i + 1).drop_last() =~= seqs(segs@).take(i as int));
        assert(seqs(segs@)[i as int] == segs@[i as int]@);
        let s = &segs[i];
        if s.len() > 0 && !(s.len() == 1 && s[0] == '.') {
            out.push(s.clone());
            assert(seqs(out@) =~= seqs(before).push(s@));
        }
        i += 1;
    }
    assert(seqs(segs@).take(segs@.len() as int) =~= seqs(segs@));
    proof {
        if absolute {
        } else {
            assert(seqs(segs@)[0] == segs@[0]@);
        }
    }
    out
}

/// How many leading elements `a[i..]` and `b[i..]` share.
pub open spec fn common_from(a: Seq<Seq<char>>, b: Seq<Seq<char>>, i: int) -> int
    decreases a.len() - i,
{
    if 0 <= i < a.len() && i < b.len() && a[i] == b[i] {
        1 + common_from(a, b, i + 1)
    } else {
        0
    }
}

/// The number of directory steps between the folders of two files: the
/// parent components of each not shared with the other, summed (held in a
/// `usize`, so at most `usize::MAX`).
pub open spec fn directory_distance_spec(a: Seq<char>, b: Seq<char>) -> int {
    let pa = parent_components(a);
    let pb = parent_components(b);
    let common = common_from(pa, pb, 0);
    let d = (pa.len() - common) + (pb.len() - common);
    if d > usize::MAX {
        usize::MAX as int
    } else {
        d
    }
}

proof fn lemma_common_bound(a: Seq<Seq<char>>, b: Seq<Seq<char>>, i: int)
    requires
        0 <= i,
    ensures
        0 <= common_from(a, b, i),
        i <= a.len() ==> common_from(a, b, i) <= a.len() - i,
        i <= b.len() ==> common_from(a, b, i) <= b.len() - i,
    decreases a.len() - i,
{
    if 0 <= i < a.len() && i < b.len() && a[i] == b[i] {
        lemma_common_bound(a, b, i + 1);
    }
}

fn parent_of(c: Vec<Vec<char>>) -> (r: Vec<Vec<char>>)
    ensures
        seqs(r@) == (if c@.len() > 0 {
            seqs(c@).drop_last()
        } else {
            seqs(c@)
        }),
{
    let mut c = c;
    if c.len() > 0 {
        let ghost before = c@;
        c.pop();
        assert(seqs(c@) =~= seqs(before).drop_last());
    }
    c
}

pub fn directory_distance(a: &str, b: &str) -> (r: usize)
    ensures
        r == directory_distance_spec(a@, b@),
{
    let ac = chars_of(a);
    let bc = chars_of(b);
    let pa = parent_of(path_components(ac.as_slice()));
    let pb = parent_of(path_components(bc.as_slice()));
    let ghost sa = seqs(pa@);
    let ghost sb = seqs(pb@);
    assert(sa == parent_components(a@));
    assert(sb == parent_components(b@));
    let mut i: usize = 0;
    while i < pa.len() && i < pb.len() && chars_eq(pa[i].as_slice(), pb[i].as_slice())
        invariant
            sa == seqs(pa@),
            sb == seqs(pb@),
            i <= pa@.len(),
            i <= pb@.len(),
            common_from(sa, sb, 0) == i + common_from(sa, sb, i as int),
        decreases pa.len() - i,
    {
        assert(sa[i as int] == pa@[i as int]@);
        assert(sb[i as int] == pb@[i as int]@);
        i += 1;
    }
    proof {
        if i < pa@.len() && i < pb@.len() {
            assert(sa[i as int] == pa@[i as int]@);
            assert(sb[i as int] == pb@[i as int]@);
        }
    }
    proof {
        lemma_common_bound(sa, sb, i as int);
    }
    (pa.len() - i).saturating_add(pb.len() - i)
}

// ---------------------------------------------------------------------
// Ranking files to search
// ---------------------------------------------------------------------

pub open spec fn symbol_files(symbols: Seq<Symbol>) -> Seq<Seq<char>> {
    symbols.map_values(|s: Symbol| s.file@)
}

pub open spec fn symbol_names(symbols: Seq<Symbol>) -> Seq<Seq<char>> {
    symbols.map_values(|s: Symbol| s.name@)
}

/// Some changed file is the same path as `path` (compared by components).
pub open spec fn is_changed_file(path: Seq<char>, files: Seq<Seq<char>>) -> bool {
    exists|k: int| 0 <= k < files.len() && components(#[trigger] files[k]) == components(path)
}

/// The smallest directory distance from `path` to a changed file
/// (`usize::MAX` when there is none).
pub open spec fn best_distance(path: Seq<char>, files: Seq<Seq<char>>) -> int
    decreases files.len(),
{
    if files.len() == 0 {
        usize::MAX as int
    } else {
        let rest = best_distance(path, files.drop_last());
        let d = directory_distance_spec(path, files.last());
        if d < rest {
            d
        } else {
            rest
        }
    }
}

/// How many symbol names occur in `path`.
pub open spec fn name_overlap(path: Seq<char>, names: Seq<Seq<char>>) -> int
    decreases names.len(),
{
    if names.len() == 0 {
        0
    } else {
        name_overlap(path, names.drop_last()) + if contains_seq(path, names.last()) {
            1int
        } else {
            0int
        }
    }
}

proof fn lemma_common_symmetric(a: Seq<Seq<char>>, b: Seq<Seq<char>>, i: int)
    requires
        0 <= i,
    ensures
        common_from(a, b, i) == common_from(b, a, i),
    decreases a.len() - i,
{
    if 0 <= i < a.len() && i < b.len() && a[i] == b[i] {
        lemma_common_symmetric(a, b, i + 1);
    }
}

proof fn lemma_common_self(a: Seq<Seq<char>>, i: int)
    requires
        0 <= i <= a.len(),
    ensures
        common_from(a, a, i) == a.len() - i,
    decreases a.len() - i,
{
    if i < a.len() {
        lemma_common_self(a, i + 1);
    }
}

/// The directory distance is symmetric, zero between two files of one
/// folder, and at most the depth of the two folders together.
pub proof fn law_directory_distance(a: Seq<char>, b: Seq<char>)
    ensures
        directory_distance_spec(a, b) == directory_distance_spec(b, a),
        parent_components(a) == parent_components(b) ==> directory_distance_spec(a, b) == 0,
        0 <= directory_distance_spec(a, b) <= parent_components(a).len() + parent_components(b).len(),
{
    lemma_common_bound(parent_components(a), parent_components(b), 0);
    lemma_common_symmetric(parent_components(a), parent_components(b), 0);
    lemma_common_self(parent_components(a), 0);
}

proof fn lemma_best_distance(path: Seq<char>, files: Seq<Seq<char>>)
    ensures
        forall|k: int| 0 <= k < files.len() ==> best_distance(path, files) <= directory_distance_spec(path, #[trigger] files[k]),
        files.len() == 0 ==> best_distance(path, files) == usize::MAX,
        files.len() > 0 ==> exists|k: int|
            0 <= k < files.len() && best_distance(path, files) == directory_distance_spec(path, #[trigger] files[k]),
    decreases files.len(),
{
    if files.len() > 0 {
        let p = files.drop_last();
        lemma_best_distance(path, p);
        let last = files.len() - 1;
        assert(files[last] == files.last());
        assert forall|k: int| 0 <= k < files.len() implies best_distance(path, files) <= directory_distance_spec(
            path,
            #[trigger] files[k],
        ) by {
            if k < p.len() {
                assert(files[k] == p[k]);
            }
        }
        if p.len() == 0 {
            assert(directory_distance_spec(path, files.last()) <= usize::MAX);
            assert(best_distance(path, files) == directory_distance_spec(path, files[last]));
        } else if directory_distance_spec(path, files.last()) < best_distance(path, p) {
            assert(best_distance(path, files) == directory_distance_spec(path, files[last]));
        } else {
            let k = choose|k: int| 0 <= k < p.len() && best_distance(path, p) == directory_distance_spec(path, #[trigger] p[k]);
            assert(files[k] == p[k]);
            assert(best_distance(path, files) == directory_distance_spec(path, files[k]));
        }
    }
}

/// The distance component of a reference rank is the distance from the path
/// to the nearest changed symbol's file: no more than the distance to any of
/// them, equal to the distance to one of them, and `usize::MAX` when there
/// are no symbols.
pub proof fn law_rank_distance_is_nearest(path: Seq<char>, symbols: Seq<Symbol>)
    ensures
        forall|k: int| 0 <= k < symbols.len() ==> reference_rank_spec(path, symbols).1 <= directory_distance_spec(
            path,
            (#[trigger] symbols[k]).file@,
        ),
        symbols.len() == 0 ==> reference_rank_spec(path, symbols).1 == usize::MAX,
        symbols.len() > 0 ==> exists|k: int|
            0 <= k < symbols.len() && reference_rank_spec(path, symbols).1 == directory_distance_spec(
                path,
                (#[trigger] symbols[k]).file@,
            ),
{
    let files = symbol_files(symbols);
    lemma_best_distance(path, files);
    assert forall|k: int| 0 <= k < symbols.len() implies reference_rank_spec(path, symbols).1 <= directory_distance_spec(
        path,
        (#[trigger] symbols[k]).file@,
    ) by {
        assert(files[k] == symbols[k].file@);
    }
    if symbols.len() > 0 {
        let k = choose|k: int| 0 <= k < files.len() && best_distance(path, files) == directory_distance_spec(path, #[trigger] files[k]);
        assert(files[k] == symbols[k].file@);
    }
}

/// The rank of a file to search: changed files first, then by nearness to a
/// changed file, then by how many symbol names the path holds (more first),
/// then by the path itself.
pub open spec fn reference_rank_spec(path: Seq<char>, symbols: Seq<Symbol>) -> (u8, int, int, Seq<char>) {
    (
        if is_changed_file(path, symbol_files(symbols)) {
            0u8
        } else {
            1u8
        },
        best_distance(path, symbol_files(symbols)),
        usize::MAX - name_overlap(path, symbol_names(symbols)),
        path,
    )
}

pub fn components_eq(a: &Vec<Vec<char>>, b: &Vec<Vec<char>>) -> (r: bool)
    ensures
        r == (seqs(a@) == seqs(b@)),
{
    if a.len() != b.len() {
        assert(seqs(a@).len() != seqs(b@).len());
        return false;
    }
    let mut i: usize = 0;
    while i < a.len()
        invariant
            a@.len() == b@.len(),
            i <= a@.len(),
            forall|k: int| 0 <= k < i ==> a@[k]@ == b@[k]@,
        decreases a.len() - i,
    {
        if !chars_eq(a[i].as_slice(), b[i].as_slice()) {
            assert(seqs(a@)[i as int] != seqs(b@)[i as int]);
            return false;
        }
        i += 1;
    }
    assert(seqs(a@) =~= seqs(b@));
    true
}

pub fn reference_rank(path: &str, symbols: &[Symbol]) -> (r: (u8, usize, usize, String))
    ensures
        r.0 == reference_rank_spec(path@, symbols@).0,
        r.1 == reference_rank_spec(path@, symbols@).1,
        r.2 == reference_rank_spec(path@, symbols@).2,
        r.3@ == path@,
{
    let pc = chars_of(path);
    let comps = path_components(pc.as_slice());
    let mut same = false;
    let mut best: usize = usize::MAX;
    let mut overlap: usize = 0;
    let mut i: usize = 0;
    while i < symbols.len()
        invariant
            i <= symbols@.len(),
            pc@ == path@,
            seqs(comps@) == components(path@),
            same == is_changed_file(path@, symbol_files(symbols@).take(i as int)),
            best == best_distance(path@, symbol_files(symbols@).take(i as int)),
            overlap == name_overlap(path@, symbol_names(symbols@).take(i as int)),
            overlap <= i,
        decreases symbols.len() - i,
    {
        let ghost files = symbol_files(symbols@);
        let ghost names = symbol_names(symbols@);
        assert(files.take(i + 1).drop_last() =~= files.take(i as int));
        assert(names.take(i + 1).drop_last() =~= names.take(i as int));
        assert(files.take(i + 1).last() == symbols@[i as int].file@);
        assert(names.take(i + 1).last() == symbols@[i as int].name@);
        let fc = chars_of(symbols[i].file.as_str());
        let fcomps = path_components(fc.as_slice());
        let eq = components_eq(&fcomps, &comps);
        proof {
            let t = files.take(i + 1);
            if eq {
                assert(components(t[i as int]) == components(path@));
            }
            if same {
                let k = choose|k: int|
                    0 <= k < i && components(#[trigger] files.take(i as int)[k]) == components(path@);
                assert(t[k] == files.take(i as int)[k]);
            }
            if is_changed_file(path@, t) {
                let k = choose|k: int| 0 <= k < t.len() && components(#[trigger] t[k]) == components(path@);
                if k < i {
                    assert(files.take(i as int)[k] == t[k]);
                }
            }
        }
        same = same || eq;
        let d = directory_distance(path, symbols[i].file.as_str());
        if d < best {
            best = d;
        }
        let nc = chars_of(symbols[i].name.as_str());
        if contains_exec(pc.as_slice(), nc.as_slice()) {
            overlap = overlap + 1;
        }
        i += 1;
    }
    proof {
        assert(symbol_files(symbols@).take(symbols@.len() as int) =~= symbol_files(symbols@));
        assert(symbol_names(symbols@).take(symbols@.len() as int) =~= symbol_names(symbols@));
    }
    let tag: u8 = if same {
        0
    } else {
        1
    };
    (tag, best, usize::MAX - overlap, string_of(pc.as_slice()))
}

/// Rank order: lexicographic on the four fields, the path by characters.
pub open spec fn rank_lt(a: (u8, int, int, Seq<char>), b: (u8, int, int, Seq<char>)) -> bool {
    a.0 < b.0 || (a.0 == b.0 && (a.1 < b.1 || (a.1 == b.1 && (a.2 < b.2 || (a.2 == b.2
        && chars_lt(a.3, b.3))))))
}

fn rank_order(a: &(u8, usize, usize, String), b: &(u8, usize, usize, String)) -> (r: Order3)
    ensures
        r == Order3::Less <==> rank_lt(
            (a.0, a.1 as int, a.2 as int, a.3@),
            (b.0, b.1 as int, b.2 as int, b.3@),
        ),
        r == Order3::Greater <==> rank_lt(
            (b.0, b.1 as int, b.2 as int, b.3@),
            (a.0, a.1 as int, a.2 as int, a.3@),
        ),
        r == Order3::Equal <==> (a.0 == b.0 && a.1 == b.1 && a.2 == b.2 && a.3@ == b.3@),
{
    proof {
        lemma_chars_lt_irrefl(a.3@);
        if chars_lt(a.3@, b.3@) {
            lemma_chars_lt_asym(a.3@, b.3@);
        }
        lemma_chars_lt_total(a.3@, b.3@);
    }
    if a.0 != b.0 {
        if a.0 < b.0 {
            Order3::Less
        } else {
            Order3::Greater
        }
    } else if a.1 != b.1 {
        if a.1 < b.1 {
            Order3::Less
        } else {
            Order3::Greater
        }
    } else if a.2 != b.2 {
        if a.2 < b.2 {
            Order3::Less
        } else {
            Order3::Greater
        }
    } else {
        let x = chars_of(a.3.as_str());
        let y = chars_of(b.3.as_str());
        compare_chars(x.as_slice(), y.as_slice())
    }
}

/// Orders two candidate files for the reference search by their ranks.
pub fn compare_reference_paths(a: &str, b: &str, symbols: &[Symbol]) -> (r: Ordering)
    ensures
        r == Ordering::Less <==> rank_lt(reference_rank_spec(a@, symbols@), reference_rank_spec(b@, symbols@)),
        r == Ordering::Greater <==> rank_lt(reference_rank_spec(b@, symbols@), reference_rank_spec(a@, symbols@)),
        r == Ordering::Equal <==> reference_rank_spec(a@, symbols@) == reference_rank_spec(b@, symbols@),
{
    let ra = reference_rank(a, symbols);
    let rb = reference_rank(b, symbols);
    match rank_order(&ra, &rb) {
        Order3::Less => Ordering::Less,
        Order3::Greater => Ordering::Greater,
        Order3::Equal => Ordering::Equal,
    }
}

} // verus!

verus! {

// ---------------------------------------------------------------------
// Hunk ranges of a unified diff, grouped by file
// ---------------------------------------------------------------------

/// The hunks of one file of a diff.
#[derive(Clone, Debug)]
pub struct FileRanges {
    pub file: String,
    pub ranges: Vec<LineRange>,
}

pub open spec fn file_ranges_models(v: Seq<FileRanges>) -> Seq<(Seq<char>, Seq<LineRange>)> {
    v.map_values(|f: FileRanges| (f.file@, f.ranges@))
}

/// The header that names the new side of a file: `+++ b/`.
pub open spec fn new_file_marker() -> Seq<char> {
    seq!['+', '+', '+', ' ', 'b', '/']
}

pub open spec fn hunk_marker() -> Seq<char> {
    seq!['@', '@']
}

/// The first entry of `files[i..]` whose path equals `f` by components.
pub open spec fn key_pos(files: Seq<(Seq<char>, Seq<LineRange>)>, f: Seq<char>, i: int) -> Option<int>
    decreases files.len() - i,
{
    if i < 0 || i >= files.len() {
        None
    } else if components(files[i].0) == components(f) {
        Some(i)
    } else {
        key_pos(files, f, i + 1)
    }
}

/// Appends `r` to the ranges of file `f`, adding the file at the end if it
/// is new.
pub open spec fn add_range(files: Seq<(Seq<char>, Seq<LineRange>)>, f: Seq<char>, r: LineRange) -> Seq<
    (Seq<char>, Seq<LineRange>),
> {
    match key_pos(files, f, 0) {
        Some(k) => files.update(k, (files[k].0, files[k].1.push(r))),
        None => files.push((f, seq![r])),
    }
}

pub type ScanState = (Option<Seq<char>>, Seq<(Seq<char>, Seq<LineRange>)>);

/// One line of the diff: a `+++ b/` header selects the file (trimmed), a
/// hunk header of a selected file adds its range, other lines change nothing.
pub open spec fn scan_step(st: ScanState, line: Seq<char>) -> ScanState {
    if starts_with(line, new_file_marker()) {
        (Some(trim_of(line.subrange(6, line.len() as int))), st.1)
    } else if starts_with(line, hunk_marker()) {
        match st.0 {
            Some(f) => match hunk_range_spec(line) {
                Some(r) => (st.0, add_range(st.1, f, r)),
                None => st,
            },
            None => st,
        }
    } else {
        st
    }
}

pub open spec fn scan(lines: Seq<Seq<char>>) -> ScanState
    decreases lines.len(),
{
    if lines.len() == 0 {
        (None, seq![])
    } else {
        scan_step(scan(lines.drop_last()), lines.last())
    }
}

/// The hunk ranges of each file of `diff`, in the order files first appear.
pub open spec fn diff_ranges_spec(diff: Seq<char>) -> Seq<(Seq<char>, Seq<LineRange>)> {
    scan(lines_of(diff)).1
}

/// Every hunk header read under a file header has a last line that fits.
pub open spec fn diff_fits(diff: Seq<char>) -> bool {
    let ls = lines_of(diff);
    forall|i: int|
        0 <= i < ls.len() && starts_with(#[trigger] ls[i], hunk_marker()) && scan(ls.take(i)).0 is Some
            ==> hunk_fits(ls[i])
}

fn marker(a: char, b: char, c: char, d: char, e: char, f: char) -> (r: Vec<char>)
    ensures
        r@ == seq![a, b, c, d, e, f],
{
    let mut v: Vec<char> = Vec::new();
    v.push(a);
    v.push(b);
    v.push(c);
    v.push(d);
    v.push(e);
    v.push(f);
    assert(v@ =~= seq![a, b, c, d, e, f]);
    v
}

fn find_file(out: &Vec<FileRanges>, f: &Vec<char>) -> (r: Option<usize>)
    ensures
        r is None ==> key_pos(file_ranges_models(out@), f@, 0) is None,
        r is Some ==> key_pos(file_ranges_models(out@), f@, 0) == Some(r.unwrap() as int),
        r is Some ==> r.unwrap() < out@.len(),
{
    let ghost m = file_ranges_models(out@);
    let fc = path_components(f.as_slice());
    let mut j: usize = 0;
    while j < out.len()
        invariant
            m == file_ranges_models(out@),
            j <= out@.len(),
            seqs(fc@) == components(f@),
            key_pos(m, f@, 0) == key_pos(m, f@, j as int),
        decreases out.len() - j,
    {
        let oc = chars_of(out[j].file.as_str());
        let ocomps = path_components(oc.as_slice());
        assert(m[j as int].0 == out@[j as int].file@);
        if components_eq(&ocomps, &fc) {
            return Some(j);
        }
        j += 1;
    }
    None
}

/// Groups the hunk ranges of a unified diff by the file they change.
pub fn parse_diff_ranges(diff: &str) -> (r: Vec<FileRanges>)
    requires
        diff_fits(diff@),
    ensures
        file_ranges_models(r@) == diff_ranges_spec(diff@),
{
    let dc = chars_of(diff);
    let ls = lines(dc.as_slice());
    let ghost lm = lines_of(diff@);
    let header = marker('+', '+', '+', ' ', 'b', '/');
    let mut at: Vec<char> = Vec::new();
    at.push('@');
    at.push('@');
    assert(at@ =~= hunk_marker());
    let mut current: Option<Vec<char>> = None;
    let mut out: Vec<FileRanges> = Vec::new();
    let mut i: usize = 0;
    assert(file_ranges_models(out@) =~= seq![]);
    while i < ls.len()
        invariant
            i <= ls@.len(),
            seqs(ls@) == lm,
            lm == lines_of(diff@),
            diff_fits(diff@),
            header@ == new_file_marker(),
            at@ == hunk_marker(),
            scan(lm.take(i as int)) == ((match current {
                Some(c) => Some(c@),
                None => None::<Seq<char>>,
            }), file_ranges_models(out@)),
        decreases ls.len() - i,
    {
        let ghost st = scan(lm.take(i as int));
        assert(lm.take(i + 1).drop_last() =~= lm.take(i as int));
        assert(lm.take(i + 1).last() == ls@[i as int]@);
        assert(lm[i as int] == ls@[i as int]@);
        assert(scan(lm.take(i + 1)) == scan_step(st, lm[i as int]));
        let line = &ls[i];
        if has_prefix(line.as_slice(), header.as_slice()) {
            let rest = slice_range(line.as_slice(), 6, line.len());
            current = Some(trim(rest.as_slice()));
            assert(scan_step(st, lm[i as int]).0 == Some(trim_of(lm[i as int].subrange(6, lm[i as int].len() as int))));
        } else if has_prefix(line.as_slice(), at.as_slice()) {
            match &current {
                Some(f) => {
                    assert(lm[i as int] == ls@[i as int]@);
                    let ls_str = string_of(line.as_slice());
                    match parse_hunk_range(ls_str.as_str()) {
                        Some(r) => {
                            let ghost before = file_ranges_models(out@);
                            match find_file(&out, f) {
                                Some(k) => {
                                    let mut entry = out.remove(k);
                                    entry.ranges.push(r);
                                    out.insert(k, entry);
                                    assert(file_ranges_models(out@) =~= before.update(
                                        k as int,
                                        (before[k as int].0, before[k as int].1.push(r)),
                                    ));
                                    assert(file_ranges_models(out@) == add_range(before, f@, r));
                                },
                                None => {
                                    let mut rs: Vec<LineRange> = Vec::new();
                                    rs.push(r);
                                    out.push(FileRanges { file: string_of(f.as_slice()), ranges: rs });
                                    assert(file_ranges_models(out@) =~= before.push((f@, seq![r])));
                                    assert(file_ranges_models(out@) == add_range(before, f@, r));
                                },
                            }
                        },
                        None => {},
                    }
                },
                None => {},
            }
        }
        i += 1;
    }
    assert(lm.take(ls@.len() as int) =~= lm);
    out
}

/// The hunk ranges recorded for `file` (compared by path components).
pub fn ranges_for<'a>(ranges: &'a Vec<FileRanges>, file: &str) -> (r: Option<&'a Vec<LineRange>>)
    ensures
        r is None <==> key_pos(file_ranges_models(ranges@), file@, 0) is None,
        r is Some ==> r.unwrap()@ == file_ranges_models(ranges@)[key_pos(
            file_ranges_models(ranges@),
            file@,
            0,
        ).unwrap()].1,
{
    let f = chars_of(file);
    match find_file(ranges, &f) {
        Some(k) => {
            assert(file_ranges_models(ranges@)[k as int].1 == ranges@[k as int].ranges@);
            Some(&ranges[k].ranges)
        },
        None => None,
    }
}

} // verus!

verus! {

// ---------------------------------------------------------------------
// Symbols of changed items, and the files to search for them
// ---------------------------------------------------------------------

/// The symbol kind of a Rust syntax node kind, if it names an item we track.
pub open spec fn symbol_kind_spec(kind: Seq<char>) -> Option<SymbolKind> {
    if kind == "function_item"@ {
        Some(SymbolKind::Function)
    } else if kind == "struct_item"@ {
        Some(SymbolKind::Struct)
    } else if kind == "trait_item"@ {
        Some(SymbolKind::Trait)
    } else if kind == "impl_item"@ {
        Some(SymbolKind::Impl)
    } else if kind == "const_item"@ || kind == "static_item"@ {
        Some(SymbolKind::Constant)
    } else {
        None
    }
}

pub fn symbol_kind_for(kind: &str) -> (r: Option<SymbolKind>)
    ensures
        r == symbol_kind_spec(kind@),
{
    if str_eq(kind, "function_item") {
        Some(SymbolKind::Function)
    } else if str_eq(kind, "struct_item") {
        Some(SymbolKind::Struct)
    } else if str_eq(kind, "trait_item") {
        Some(SymbolKind::Trait)
    } else if str_eq(kind, "impl_item") {
        Some(SymbolKind::Impl)
    } else if str_eq(kind, "const_item") || str_eq(kind, "static_item") {
        Some(SymbolKind::Constant)
    } else {
        None
    }
}

/// Does the item spanning lines `start..=end` meet one of the ranges?
pub open spec fn overlaps_any_spec(start: u32, end: u32, ranges: Seq<LineRange>) -> bool {
    exists|i: int| 0 <= i < ranges.len() && start <= (#[trigger] ranges[i]).end && end >= ranges[i].start
}

pub fn overlaps_any(start: u32, end: u32, ranges: &[LineRange]) -> (r: bool)
    ensures
        r == overlaps_any_spec(start, end, ranges@),
{
    let mut i: usize = 0;
    while i < ranges.len()
        invariant
            i <= ranges@.len(),
            forall|k: int| 0 <= k < i ==> !(start <= (#[trigger] ranges@[k]).end && end >= ranges@[k].start),
        decreases ranges.len() - i,
    {
        if start <= ranges[i].end && end >= ranges[i].start {
            return true;
        }
        i += 1;
    }
    false
}

proof fn lemma_rank_irrefl(a: (u8, int, int, Seq<char>))
    ensures
        !rank_lt(a, a),
{
    lemma_chars_lt_irrefl(a.3);
}

proof fn lemma_rank_trans(a: (u8, int, int, Seq<char>), b: (u8, int, int, Seq<char>), c: (u8, int, int, Seq<char>))
    requires
        rank_lt(a, b),
        rank_lt(b, c),
    ensures
        rank_lt(a, c),
{
    if chars_lt(a.3, b.3) && chars_lt(b.3, c.3) {
        lemma_chars_lt_trans(a.3, b.3, c.3);
    }
}

proof fn lemma_rank_asym(a: (u8, int, int, Seq<char>), b: (u8, int, int, Seq<char>))
    requires
        rank_lt(a, b),
    ensures
        !rank_lt(b, a),
{
    if chars_lt(a.3, b.3) {
        lemma_chars_lt_asym(a.3, b.3);
    }
}

proof fn lemma_rank_total(a: (u8, int, int, Seq<char>), b: (u8, int, int, Seq<char>))
    ensures
        rank_lt(a, b) || rank_lt(b, a) || a == b,
{
    lemma_chars_lt_total(a.3, b.3);
}

/// A file to search together with its rank.
pub struct RankedPath {
    pub path: String,
    pub rank: (u8, usize, usize, String),
}

pub open spec fn ranked_key(r: RankedPath) -> (u8, int, int, Seq<char>) {
    (r.rank.0, r.rank.1 as int, r.rank.2 as int, r.rank.3@)
}

impl Preorder for RankedPath {
    open spec fn before(&self, other: &Self) -> bool {
        rank_lt(ranked_key(*self), ranked_key(*other))
    }

    proof fn before_irrefl(a: &Self) {
        lemma_chars_lt_irrefl(a.rank.3@);
    }

    proof fn before_trans(a: &Self, b: &Self, c: &Self) {
        if chars_lt(a.rank.3@, b.rank.3@) && chars_lt(b.rank.3@, c.rank.3@) {
            lemma_chars_lt_trans(a.rank.3@, b.rank.3@, c.rank.3@);
        }
    }

    proof fn not_before_trans(a: &Self, b: &Self, c: &Self) {
        let (x, y, z) = (ranked_key(*a), ranked_key(*b), ranked_key(*c));
        lemma_rank_total(x, y);
        lemma_rank_total(y, z);
        if rank_lt(z, x) {
            if rank_lt(x, y) && rank_lt(y, z) {
                lemma_rank_trans(x, y, z);
                lemma_rank_asym(x, z);
            } else if rank_lt(x, y) {
                lemma_rank_asym(x, z);
            } else if rank_lt(y, z) {
                lemma_rank_asym(y, z);
            } else {
                lemma_rank_irrefl(x);
            }
        }
    }

    fn is_before(&self, other: &Self) -> (r: bool) {
        match rank_order(&self.rank, &other.rank) {
            Order3::Less => true,
            _ => false,
        }
    }
}

/// `p` is one of the strings of `v`.
pub open spec fn path_in(p: Seq<char>, v: Seq<String>) -> bool {
    exists|j: int| 0 <= j < v.len() && #[trigger] v[j]@ == p
}

/// The candidate files in search order (stable by rank), at most `max_files`
/// of them, each with its rank.
pub fn order_candidates(candidates: &Vec<String>, symbols: &[Symbol], max_files: usize) -> (r: Vec<RankedPath>)
    ensures
        r@.len() == if candidates@.len() < max_files {
            candidates@.len()
        } else {
            max_files as nat
        },
        sorted_by_before(r@),
        forall|i: int| 0 <= i < r@.len() ==> ranked_key(#[trigger] r@[i]) == reference_rank_spec(r@[i].path@, symbols@),
        forall|i: int| 0 <= i < r@.len() ==> path_in(#[trigger] r@[i].path@, candidates@),
{
    let mut items: Vec<RankedPath> = Vec::new();
    let mut i: usize = 0;
    while i < candidates.len()
        invariant
            i <= candidates@.len(),
            items@.len() == i,
            forall|k: int| 0 <= k < i ==> ranked_key(#[trigger] items@[k]) == reference_rank_spec(items@[k].path@, symbols@),
            forall|k: int| 0 <= k < i ==> (#[trigger] items@[k]).path@ == candidates@[k]@,
        decreases candidates.len() - i,
    {
        let rank = reference_rank(candidates[i].as_str(), symbols);
        items.push(RankedPath { path: candidates[i].clone(), rank });
        i += 1;
    }
    let ghost pre = items@;
    let mut sorted = sort_by_before(items);
    proof {
        assert forall|k: int| 0 <= k < sorted@.len() implies pre.contains(#[trigger] sorted@[k]) by {
            pre.to_multiset_ensures();
            sorted@.to_multiset_ensures();
            assert(sorted@.to_multiset().count(sorted@[k]) > 0);
        }
    }
    let ghost full = sorted@;
    sorted.truncate(max_files);
    proof {
        assert forall|k: int| 0 <= k < sorted@.len() implies #[trigger] ranked_key(sorted@[k]) == reference_rank_spec(sorted@[k].path@, symbols@) by {
            assert(sorted@[k] == full[k]);
            assert(pre.contains(full[k]));
            let j = choose|j: int| 0 <= j < pre.len() && pre[j] == full[k];
            assert(ranked_key(pre[j]) == reference_rank_spec(pre[j].path@, symbols@));
        }
        assert forall|k: int| 0 <= k < sorted@.len() implies path_in(#[trigger] sorted@[k].path@, candidates@) by {
            assert(sorted@[k] == full[k]);
            assert(pre.contains(full[k]));
            let j = choose|j: int| 0 <= j < pre.len() && pre[j] == full[k];
            assert(pre[j].path@ == candidates@[j]@);
            assert(sorted@[k].path@ == candidates@[j]@);
        }
    }
    sorted
}

pub struct ReferenceModel {
    pub symbol: Seq<char>,
    pub file: Seq<char>,
    pub line: u32,
    pub snippet: Seq<char>,
}

impl View for Reference {
    type V = ReferenceModel;

    open spec fn view(&self) -> ReferenceModel {
        ReferenceModel { symbol: self.symbol@, file: self.file@, line: self.line, snippet: self.snippet@ }
    }
}

pub open spec fn reference_models(v: Seq<Reference>) -> Seq<ReferenceModel> {
    v.map_values(|r: Reference| r@)
}

pub fn clone_references(v: &Vec<Reference>) -> (r: Vec<Reference>)
    ensures
        reference_models(r@) == reference_models(v@),
{
    let mut out: Vec<Reference> = Vec::new();
    let mut i: usize = 0;
    while i < v.len()
        invariant
            i <= v@.len(),
            out@.len() == i,
            forall|k: int| 0 <= k < i ==> #[trigger] out@[k]@ == v@[k]@,
        decreases v.len() - i,
    {
        let x = &v[i];
        out.push(Reference { symbol: x.symbol.clone(), file: x.file.clone(), line: x.line, snippet: x.snippet.clone() });
        i += 1;
    }
    assert(reference_models(out@) =~= reference_models(v@));
    out
}

} // verus!
