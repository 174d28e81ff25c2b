//! Turning canonical issues into a pull-request review: each issue becomes an
//! inline comment when its lines fall on lines the diff shows, and an
//! overview-only comment otherwise.
use vstd::prelude::*;
use crate::reference::{components, components_eq, path_components};
use crate::report::{opt_str, strs, clone_opt_str, clone_strs, join_strs, CanonicalIssue, IssueModel, Severity, issue_models};
use crate::text::push_string;
use crate::text::{
    chars_of, has_prefix, join, join_with, lines, lines_of, parse_u32, parse_u32_spec, push_str,
    seqs, slice_range, split_char, split_on, starts_with, str_eq, string_of, words, words_of,
    lemma_split_on_nonempty,
};

verus! {

#[derive(Clone, Copy, Debug, PartialEq, Eq, Structural)]
pub enum PullRequestCommentSide {
    Left,
    Right,
}

#[derive(Clone, Copy, Debug, PartialEq, Eq, Structural)]
pub enum PullRequestCommentMappingStatus {
    Inline,
    OverviewOnly,
}

#[derive(Clone, Debug)]
pub struct PullRequestOverviewComment {
    pub body: String,
}

/// One review comment, inline on a diff line or for the overview only.
#[derive(Clone, Debug)]
pub struct PullRequestCommentDraft {
    pub severity: Severity,
    pub category: String,
    pub title: String,
    pub description: String,
    pub body: String,
    pub path: Option<String>,
    pub line: Option<u32>,
    pub side: Option<PullRequestCommentSide>,
    pub start_line: Option<u32>,
    pub start_side: Option<PullRequestCommentSide>,
    pub source_agents: Vec<String>,
    pub mapping_status: PullRequestCommentMappingStatus,
    pub mapping_note: Option<String>,
}

pub struct CommentDraftModel {
    pub severity: Severity,
    pub category: Seq<char>,
    pub title: Seq<char>,
    pub description: Seq<char>,
    pub body: Seq<char>,
    pub path: Option<Seq<char>>,
    pub line: Option<u32>,
    pub side: Option<PullRequestCommentSide>,
    pub start_line: Option<u32>,
    pub start_side: Option<PullRequestCommentSide>,
    pub source_agents: Seq<Seq<char>>,
    pub mapping_status: PullRequestCommentMappingStatus,
    pub mapping_note: Option<Seq<char>>,
}

impl View for PullRequestCommentDraft {
    type V = CommentDraftModel;

    open spec fn view(&self) -> CommentDraftModel {
        CommentDraftModel {
            severity: self.severity,
            category: self.category@,
            title: self.title@,
            description: self.description@,
            body: self.body@,
            path: opt_str(self.path),
            line: self.line,
            side: self.side,
            start_line: self.start_line,
            start_side: self.start_side,
            source_agents: strs(self.source_agents@),
            mapping_status: self.mapping_status,
            mapping_note: opt_str(self.mapping_note),
        }
    }
}

pub open spec fn draft_models(v: Seq<PullRequestCommentDraft>) -> Seq<CommentDraftModel> {
    v.map_values(|d: PullRequestCommentDraft| d@)
}

#[derive(Clone, Debug)]
pub struct PullRequestReviewDraft {
    pub overview_comment: PullRequestOverviewComment,
    pub inline_comments: Vec<PullRequestCommentDraft>,
    pub overview_only_comments: Vec<PullRequestCommentDraft>,
}

// ---------------------------------------------------------------------
// Hunk headers of the index
// ---------------------------------------------------------------------

/// `s` without its leading `'-'` and `'+'` characters.
pub open spec fn trim_signs(s: Seq<char>) -> Seq<char>
    decreases s.len(),
{
    if s.len() > 0 && (s[0] == '-' || s[0] == '+') {
        trim_signs(s.drop_first())
    } else {
        s
    }
}

/// The start line of one side of a hunk header (`-3,1` or `+10,4`).
pub open spec fn hunk_start_spec(part: Seq<char>) -> Option<u32> {
    parse_u32_spec(split_on(trim_signs(part), ',')[0])
}

pub open spec fn hunk_header_marker() -> Seq<char> {
    seq!['@', '@', ' ']
}

/// The old and new start lines of a hunk header line.
pub open spec fn hunk_header_spec(line: Seq<char>) -> Option<(u32, u32)> {
    let w = words_of(line);
    if !starts_with(line, hunk_header_marker()) || w.len() < 3 {
        None
    } else {
        match (hunk_start_spec(w[1]), hunk_start_spec(w[2])) {
            (Some(o), Some(n)) => Some((o, n)),
            _ => None,
        }
    }
}

fn trim_signs_exec(s: &[char]) -> (r: Vec<char>)
    ensures
        r@ == trim_signs(s@),
{
    let mut j: usize = 0;
    assert(s@.subrange(0, s@.len() as int) =~= s@);
    while j < s.len() && (s[j] == '-' || s[j] == '+')
        invariant
            j <= s@.len(),
            trim_signs(s@) == trim_signs(s@.subrange(j as int, s@.len() as int)),
        decreases s.len() - j,
    {
        assert(s@.subrange(j as int, s@.len() as int).drop_first() =~= s@.subrange(
            j + 1,
            s@.len() as int,
        ));
        j += 1;
    }
    slice_range(s, j, s.len())
}

fn parse_hunk_start(part: &[char]) -> (r: Option<u32>)
    ensures
        r == hunk_start_spec(part@),
{
    let t = trim_signs_exec(part);
    let pieces = split_char(t.as_slice(), ',');
    assert(seqs(pieces@)[0] == pieces@[0]@);
    parse_u32(pieces[0].as_slice())
}

fn parse_hunk_header(line: &[char]) -> (r: Option<(u32, u32)>)
    ensures
        r == hunk_header_spec(line@),
{
    let mut marker: Vec<char> = Vec::new();
    marker.push('@');
    marker.push('@');
    marker.push(' ');
    assert(marker@ =~= hunk_header_marker());
    if !has_prefix(line, marker.as_slice()) {
        return None;
    }
    let w = words(line);
    if w.len() < 3 {
        return None;
    }
    assert(seqs(w@)[1] == w@[1]@);
    assert(seqs(w@)[2] == w@[2]@);
    let old = parse_hunk_start(w[1].as_slice());
    let new = parse_hunk_start(w[2].as_slice());
    match (old, new) {
        (Some(o), Some(n)) => Some((o, n)),
        _ => None,
    }
}

// ---------------------------------------------------------------------
// The index of diff lines per file and side
// ---------------------------------------------------------------------

/// The lines a diff shows for one file: old-side lines and new-side lines.
#[derive(Clone, Debug)]
pub struct FileLines {
    pub file: String,
    pub left: Vec<u32>,
    pub right: Vec<u32>,
}

#[derive(Clone, Debug)]
pub struct DiffIndex {
    pub files: Vec<FileLines>,
}

pub type FileLinesModel = (Seq<char>, Seq<u32>, Seq<u32>);

pub open spec fn index_models(v: Seq<FileLines>) -> Seq<FileLinesModel> {
    v.map_values(|f: FileLines| (f.file@, f.left@, f.right@))
}

/// The first entry of `files[i..]` whose path equals `f` by components.
pub open spec fn file_pos(files: Seq<FileLinesModel>, f: Seq<char>, i: int) -> Option<int>
    decreases files.len() - i,
{
    if i < 0 || i >= files.len() {
        None
    } else if components(files[i].0) == components(f) {
        Some(i)
    } else {
        file_pos(files, f, i + 1)
    }
}

/// The files with an entry for `f` (added empty if missing).
pub open spec fn with_entry(files: Seq<FileLinesModel>, f: Seq<char>) -> Seq<FileLinesModel> {
    match file_pos(files, f, 0) {
        Some(k) => files,
        None => files.push((f, seq![], seq![])),
    }
}

pub open spec fn entry_index(files: Seq<FileLinesModel>, f: Seq<char>) -> int {
    match file_pos(files, f, 0) {
        Some(k) => k,
        None => files.len() as int,
    }
}

/// The path of the new side names no file.
pub open spec fn dev_null() -> Seq<char> {
    seq!['/', 'd', 'e', 'v', '/', 'n', 'u', 'l', 'l']
}

pub open spec fn new_side_marker() -> Seq<char> {
    seq!['+', '+', '+', ' ', 'b', '/']
}

/// Scan state: the current file, the next old and new line numbers, the index.
pub type IndexState = (Option<Seq<char>>, int, int, Seq<FileLinesModel>);

/// One line of the diff. A `+++ b/` header selects a file (unless it is
/// `/dev/null`); a hunk header sets both line counters; under a selected
/// file a context line is recorded on both sides, an added line on the new
/// side, a removed line on the old side, each advancing its counters.
#[verifier::opaque]
pub open spec fn index_step(st: IndexState, line: Seq<char>) -> IndexState {
    if starts_with(line, new_side_marker()) {
        let p = line.subrange(6, line.len() as int);
        if p == dev_null() {
            st
        } else {
            (Some(p), st.1, st.2, st.3)
        }
    } else {
        match hunk_header_spec(line) {
            Some((o, n)) => (st.0, o as int, n as int, st.3),
            None => match st.0 {
                None => st,
                Some(f) => if line.len() == 0 {
                    st
                } else {
                    let files = with_entry(st.3, f);
                    let k = entry_index(st.3, f);
                    let e = files[k];
                    if line[0] == ' ' {
                        (
                            st.0,
                            st.1 + 1,
                            st.2 + 1,
                            files.update(k, (e.0, e.1.push(st.1 as u32), e.2.push(st.2 as u32))),
                        )
                    } else if line[0] == '+' {
                        (st.0, st.1, st.2 + 1, files.update(k, (e.0, e.1, e.2.push(st.2 as u32))))
                    } else if line[0] == '-' {
                        (st.0, st.1 + 1, st.2, files.update(k, (e.0, e.1.push(st.1 as u32), e.2)))
                    } else {
                        (st.0, st.1, st.2, files)
                    }
                },
            },
        }
    }
}

/// The counters a step advances stay within `u32`.
pub open spec fn step_fits(st: IndexState, line: Seq<char>) -> bool {
    let next = index_step(st, line);
    next.1 <= u32::MAX && next.2 <= u32::MAX
}

pub open spec fn index_scan(lines: Seq<Seq<char>>) -> IndexState
    decreases lines.len(),
{
    if lines.len() == 0 {
        (None, 0, 0, seq![])
    } else {
        index_step(index_scan(lines.drop_last()), lines.last())
    }
}

pub open spec fn index_fits(lines: Seq<Seq<char>>) -> bool {
    forall|i: int| 0 <= i < lines.len() ==> step_fits(index_scan(lines.take(i)), #[trigger] lines[i])
}

fn find_lines_file(files: &Vec<FileLines>, f: &[char]) -> (r: Option<usize>)
    ensures
        r is None ==> file_pos(index_models(files@), f@, 0) is None,
        r is Some ==> file_pos(index_models(files@), f@, 0) == Some(r.unwrap() as int),
        r is Some ==> r.unwrap() < files@.len(),
{
    let ghost m = index_models(files@);
    let fc = path_components(f);
    let mut j: usize = 0;
    while j < files.len()
        invariant
            m == index_models(files@),
            j <= files@.len(),
            seqs(fc@) == components(f@),
            file_pos(m, f@, 0) == file_pos(m, f@, j as int),
        decreases files.len() - j,
    {
        let oc = chars_of(files[j].file.as_str());
        let ocomps = path_components(oc.as_slice());
        assert(m[j as int].0 == files@[j as int].file@);
        if components_eq(&ocomps, &fc) {
            return Some(j);
        }
        j += 1;
    }
    None
}

/// Index of the entry for `f`, added empty when missing.
fn entry_for(files: &mut Vec<FileLines>, f: &[char]) -> (k: usize)
    ensures
        index_models(final(files)@) == with_entry(index_models(old(files)@), f@),
        k == entry_index(index_models(old(files)@), f@),
        k < final(files)@.len(),
{
    match find_lines_file(files, f) {
        Some(k) => k,
        None => {
            let ghost before = index_models(files@);
            let k = files.len();
            files.push(FileLines { file: string_of(f), left: Vec::new(), right: Vec::new() });
            assert(index_models(files@) =~= before.push((f@, seq![], seq![])));
            k
        },
    }
}

pub open spec fn opt_chars(c: Option<Vec<char>>) -> Option<Seq<char>> {
    match c {
        Some(v) => Some(v@),
        None => None,
    }
}

fn index_line(
    current: &mut Option<Vec<char>>,
    old_line: &mut u32,
    new_line: &mut u32,
    files: &mut Vec<FileLines>,
    line: &[char],
    header: &Vec<char>,
    null: &Vec<char>,
)
    requires
        header@ == new_side_marker(),
        null@ == dev_null(),
        step_fits((opt_chars(*old(current)), *old(old_line) as int, *old(new_line) as int, index_models(old(files)@)), line@),
    ensures
        (opt_chars(*final(current)), *final(old_line) as int, *final(new_line) as int, index_models(final(files)@))
            == index_step((opt_chars(*old(current)), *old(old_line) as int, *old(new_line) as int, index_models(old(files)@)), line@),
{
    reveal(index_step);
    if has_prefix(line, header.as_slice()) {
        let p = slice_range(line, 6, line.len());
        if !crate::text::chars_eq(p.as_slice(), null.as_slice()) {
            *current = Some(p);
        }
    } else {
        match parse_hunk_header(line) {
            Some((o, n)) => {
                *old_line = o;
                *new_line = n;
            },
            None => {
                match &*current {
                    None => {},
                    Some(f) => {
                        if line.len() > 0 {
                            let ghost before = index_models(files@);
                            let k = entry_for(files, f.as_slice());
                            let ghost mid = index_models(files@);
                            let first = line[0];
                            if first == ' ' {
                                let mut e = files.remove(k);
                                e.left.push(*old_line);
                                e.right.push(*new_line);
                                files.insert(k, e);
                                assert(index_models(files@) =~= mid.update(
                                    k as int,
                                    (mid[k as int].0, mid[k as int].1.push(*old_line), mid[k as int].2.push(*new_line)),
                                ));
                                *old_line = *old_line + 1;
                                *new_line = *new_line + 1;
                            } else if first == '+' {
                                let mut e = files.remove(k);
                                e.right.push(*new_line);
                                files.insert(k, e);
                                assert(index_models(files@) =~= mid.update(
                                    k as int,
                                    (mid[k as int].0, mid[k as int].1, mid[k as int].2.push(*new_line)),
                                ));
                                *new_line = *new_line + 1;
                            } else if first == '-' {
                                let mut e = files.remove(k);
                                e.left.push(*old_line);
                                files.insert(k, e);
                                assert(index_models(files@) =~= mid.update(
                                    k as int,
                                    (mid[k as int].0, mid[k as int].1.push(*old_line), mid[k as int].2),
                                ));
                                *old_line = *old_line + 1;
                            }
                        }
                    },
                }
            },
        }
    }
}

impl DiffIndex {
    pub open spec fn model(&self) -> Seq<FileLinesModel> {
        index_models(self.files@)
    }

    /// Indexes the lines each file shows on each side of a unified diff.
    pub fn from_patch(diff: &str) -> (r: DiffIndex)
        requires
            index_fits(lines_of(diff@)),
        ensures
            r.model() == index_scan(lines_of(diff@)).3,
    {
        let dc = chars_of(diff);
        let ls = lines(dc.as_slice());
        let ghost lm = lines_of(diff@);
        let mut header: Vec<char> = Vec::new();
        header.push('+');
        header.push('+');
        header.push('+');
        header.push(' ');
        header.push('b');
        header.push('/');
        assert(header@ =~= new_side_marker());
        let mut null: Vec<char> = Vec::new();
        null.push('/');
        null.push('d');
        null.push('e');
        null.push('v');
        null.push('/');
        null.push('n');
        null.push('u');
        null.push('l');
        null.push('l');
        assert(null@ =~= dev_null());
        let mut current: Option<Vec<char>> = None;
        let mut old_line: u32 = 0;
        let mut new_line: u32 = 0;
        let mut files: Vec<FileLines> = Vec::new();
        assert(index_models(files@) =~= seq![]);
        let mut i: usize = 0;
        while i < ls.len()
            invariant
                i <= ls@.len(),
                seqs(ls@) == lm,
                lm == lines_of(diff@),
                index_fits(lm),
                header@ == new_side_marker(),
                null@ == dev_null(),
                index_scan(lm.take(i as int)) == (opt_chars(current), old_line as int, new_line as int, index_models(files@)),
            decreases ls.len() - i,
        {
            let ghost st = index_scan(lm.take(i as int));
            assert(lm.take(i + 1).drop_last() =~= lm.take(i as int));
            assert(lm[i as int] == ls@[i as int]@);
            assert(lm.take(i + 1).last() == lm[i as int]);
            assert(index_scan(lm.take(i + 1)) == index_step(st, lm[i as int]));
            assert(step_fits(st, lm[i as int]));
            index_line(&mut current, &mut old_line, &mut new_line, &mut files, ls[i].as_slice(), &header, &null);
            i += 1;
        }
        assert(lm.take(ls@.len() as int) =~= lm);
        DiffIndex { files }
    }
}

fn step_fits_exec(
    current: &Option<Vec<char>>,
    old_line: u32,
    new_line: u32,
    line: &[char],
    header: &Vec<char>,
    Ghost(files): Ghost<Seq<FileLinesModel>>,
) -> (r: bool)
    requires
        header@ == new_side_marker(),
    ensures
        r == step_fits((opt_chars(*current), old_line as int, new_line as int, files), line@),
{
    reveal(index_step);
    if has_prefix(line, header.as_slice()) {
        return true;
    }
    match parse_hunk_header(line) {
        Some(_) => true,
        None => match current {
            None => true,
            Some(_) => {
                if line.len() == 0 {
                    true
                } else {
                    let first = line[0];
                    if first == ' ' {
                        old_line < u32::MAX && new_line < u32::MAX
                    } else if first == '+' {
                        new_line < u32::MAX
                    } else if first == '-' {
                        old_line < u32::MAX
                    } else {
                        true
                    }
                }
            },
        },
    }
}

/// Whether every line counter that indexing the diff advances stays within
/// `u32`, so that the diff can be indexed for a review draft.
pub fn index_fits_exec(diff: &str) -> (r: bool)
    ensures
        r == index_fits(lines_of(diff@)),
{
    let dc = chars_of(diff);
    let ls = lines(dc.as_slice());
    let ghost lm = lines_of(diff@);
    let mut header: Vec<char> = Vec::new();
    header.push('+');
    header.push('+');
    header.push('+');
    header.push(' ');
    header.push('b');
    header.push('/');
    assert(header@ =~= new_side_marker());
    let mut null: Vec<char> = Vec::new();
    null.push('/');
    null.push('d');
    null.push('e');
    null.push('v');
    null.push('/');
    null.push('n');
    null.push('u');
    null.push('l');
    null.push('l');
    assert(null@ =~= dev_null());
    let mut current: Option<Vec<char>> = None;
    let mut old_line: u32 = 0;
    let mut new_line: u32 = 0;
    let mut files: Vec<FileLines> = Vec::new();
    assert(index_models(files@) =~= seq![]);
    let mut i: usize = 0;
    while i < ls.len()
        invariant
            i <= ls@.len(),
            seqs(ls@) == lm,
            lm == lines_of(diff@),
            header@ == new_side_marker(),
            null@ == dev_null(),
            index_scan(lm.take(i as int)) == (opt_chars(current), old_line as int, new_line as int, index_models(files@)),
            forall|k: int| 0 <= k < i ==> step_fits(index_scan(lm.take(k)), #[trigger] lm[k]),
        decreases ls.len() - i,
    {
        let ghost st = index_scan(lm.take(i as int));
        assert(lm.take(i + 1).drop_last() =~= lm.take(i as int));
        assert(lm[i as int] == ls@[i as int]@);
        assert(lm.take(i + 1).last() == lm[i as int]);
        assert(index_scan(lm.take(i + 1)) == index_step(st, lm[i as int]));
        if !step_fits_exec(&current, old_line, new_line, ls[i].as_slice(), &header, Ghost(index_models(files@))) {
            assert(!step_fits(index_scan(lm.take(i as int)), lm[i as int]));
            return false;
        }
        index_line(&mut current, &mut old_line, &mut new_line, &mut files, ls[i].as_slice(), &header, &null);
        i += 1;
    }
    true
}

// ---------------------------------------------------------------------
// Mapping an issue's lines onto the diff
// ---------------------------------------------------------------------

#[derive(Clone, Copy, Debug, PartialEq, Eq, Structural)]
pub struct MappedRange {
    pub line: u32,
    pub side: PullRequestCommentSide,
    pub start_line: Option<u32>,
    pub start_side: Option<PullRequestCommentSide>,
}

/// Every line of `start..=end` is in `s` (true when the range is empty).
pub open spec fn covers(s: Seq<u32>, start: u32, end: u32) -> bool {
    forall|x: u32| start <= x <= end ==> s.contains(x)
}

/// A comment on `start..=end` of one side: anchored at `end`, with a start
/// line when the range spans more than one line.
pub open spec fn ranged(side: PullRequestCommentSide, start: u32, end: u32) -> MappedRange {
    MappedRange {
        line: end,
        side,
        start_line: if start != end {
            Some(start)
        } else {
            None
        },
        start_side: if start != end {
            Some(side)
        } else {
            None
        },
    }
}

/// Where a comment on `start..=end` of `path` goes: the whole range on the
/// new side, else on the old side, else the start line alone on the new side,
/// else on the old side; nowhere if the file is not in the diff.
pub open spec fn map_range_spec(files: Seq<FileLinesModel>, path: Seq<char>, start: u32, end: u32) -> Option<MappedRange> {
    match file_pos(files, path, 0) {
        None => None,
        Some(k) => {
            let e = files[k];
            if covers(e.2, start, end) {
                Some(ranged(PullRequestCommentSide::Right, start, end))
            } else if covers(e.1, start, end) {
                Some(ranged(PullRequestCommentSide::Left, start, end))
            } else if e.2.contains(start) {
                Some(MappedRange { line: start, side: PullRequestCommentSide::Right, start_line: None, start_side: None })
            } else if e.1.contains(start) {
                Some(MappedRange { line: start, side: PullRequestCommentSide::Left, start_line: None, start_side: None })
            } else {
                None
            }
        },
    }
}

fn has_line(v: &Vec<u32>, x: u32) -> (r: bool)
    ensures
        r == v@.contains(x),
{
    let mut i: usize = 0;
    while i < v.len()
        invariant
            i <= v@.len(),
            forall|k: int| 0 <= k < i ==> v@[k] != x,
        decreases v.len() - i,
    {
        if v[i] == x {
            assert(v@[i as int] == x);
            return true;
        }
        i += 1;
    }
    false
}

fn contains_range(v: &Vec<u32>, start: u32, end: u32) -> (r: bool)
    ensures
        r == covers(v@, start, end),
{
    let mut x: u64 = start as u64;
    while x <= end as u64
        invariant
            start <= x,
            x <= end as u64 + 1 || x == start,
            forall|y: u32| start <= y < x ==> v@.contains(y),
        decreases end as u64 + 1 - x,
    {
        if !has_line(v, x as u32) {
            return false;
        }
        x = x + 1;
    }
    true
}

impl DiffIndex {
    pub fn map_range(&self, path: &str, start: u32, end: u32) -> (r: Option<MappedRange>)
        ensures
            r == map_range_spec(self.model(), path@, start, end),
    {
        let pc = chars_of(path);
        let k = match find_lines_file(&self.files, pc.as_slice()) {
            Some(k) => k,
            None => {
                return None;
            },
        };
        let e = &self.files[k];
        assert(self.model()[k as int] == (e.file@, e.left@, e.right@));
        let two = start != end;
        if contains_range(&e.right, start, end) {
            let side = PullRequestCommentSide::Right;
            return Some(MappedRange {
                line: end,
                side,
                start_line: if two { Some(start) } else { None },
                start_side: if two { Some(side) } else { None },
            });
        }
        if contains_range(&e.left, start, end) {
            let side = PullRequestCommentSide::Left;
            return Some(MappedRange {
                line: end,
                side,
                start_line: if two { Some(start) } else { None },
                start_side: if two { Some(side) } else { None },
            });
        }
        if has_line(&e.right, start) {
            return Some(MappedRange { line: start, side: PullRequestCommentSide::Right, start_line: None, start_side: None });
        }
        if has_line(&e.left, start) {
            return Some(MappedRange { line: start, side: PullRequestCommentSide::Left, start_line: None, start_side: None });
        }
        None
    }
}

// ---------------------------------------------------------------------
// Comment drafts
// ---------------------------------------------------------------------

/// The body of a comment: the title in bold, the description, who raised
/// it, and the suggested fix when there is one.
pub open spec fn comment_body_spec(issue: IssueModel) -> Seq<char> {
    "**"@ + issue.title + "**\n\n"@ + issue.description + "\n\nRaised by: "@ + join_with(
        issue.raised_by,
        ", "@,
    ) + match issue.suggested_fix {
        Some(f) => "\n\nSuggested fix: "@ + f,
        None => Seq::<char>::empty(),
    }
}

pub fn render_comment_body(issue: &CanonicalIssue) -> (r: String)
    ensures
        r@ == comment_body_spec(issue@),
{
    let mut out = String::new();
    push_str(&mut out, "**");
    push_string(&mut out, &issue.title);
    push_str(&mut out, "**\n\n");
    push_string(&mut out, &issue.description);
    push_str(&mut out, "\n\nRaised by: ");
    let who = join_strs(&issue.raised_by, ", ");
    push_string(&mut out, &who);
    match &issue.suggested_fix {
        Some(fix) => {
            push_str(&mut out, "\n\nSuggested fix: ");
            push_string(&mut out, fix);
        },
        None => {},
    }
    assert(out@ =~= comment_body_spec(issue@));
    out
}

pub open spec fn unmapped_note() -> Seq<char> {
    "Issue could not be mapped to a changed diff hunk"@
}

/// The draft for one issue: inline where its lines map onto the diff,
/// overview-only (with a note) otherwise.
pub open spec fn draft_spec(issue: IssueModel, files: Seq<FileLinesModel>) -> CommentDraftModel {
    let base = CommentDraftModel {
        severity: issue.severity,
        category: issue.category,
        title: issue.title,
        description: issue.description,
        body: comment_body_spec(issue),
        path: issue.file,
        line: None,
        side: None,
        start_line: None,
        start_side: None,
        source_agents: issue.raised_by,
        mapping_status: PullRequestCommentMappingStatus::OverviewOnly,
        mapping_note: Some(unmapped_note()),
    };
    match (issue.file, issue.line_start) {
        (Some(p), Some(s)) => {
            let e = match issue.line_end {
                Some(e) => e,
                None => s,
            };
            match map_range_spec(files, p, s, e) {
                Some(m) => CommentDraftModel {
                    severity: issue.severity,
                    category: issue.category,
                    title: issue.title,
                    description: issue.description,
                    body: comment_body_spec(issue),
                    path: Some(p),
                    line: Some(m.line),
                    side: Some(m.side),
                    start_line: m.start_line,
                    start_side: m.start_side,
                    source_agents: issue.raised_by,
                    mapping_status: PullRequestCommentMappingStatus::Inline,
                    mapping_note: None,
                },
                None => base,
            }
        },
        _ => base,
    }
}

fn build_comment_draft(issue: &CanonicalIssue, index: &DiffIndex) -> (r: PullRequestCommentDraft)
    ensures
        r@ == draft_spec(issue@, index.model()),
{
    let body = render_comment_body(issue);
    let mut draft = PullRequestCommentDraft {
        severity: issue.severity,
        category: issue.category.clone(),
        title: issue.title.clone(),
        description: issue.description.clone(),
        body,
        path: clone_opt_str(&issue.file),
        line: None,
        side: None,
        start_line: None,
        start_side: None,
        source_agents: clone_strs(&issue.raised_by),
        mapping_status: PullRequestCommentMappingStatus::OverviewOnly,
        mapping_note: Some("Issue could not be mapped to a changed diff hunk".to_owned()),
    };
    let path = match &issue.file {
        Some(p) => p,
        None => {
            return draft;
        },
    };
    let start = match issue.line_start {
        Some(s) => s,
        None => {
            return draft;
        },
    };
    let end = match issue.line_end {
        Some(e) => e,
        None => start,
    };
    match index.map_range(path.as_str(), start, end) {
        Some(mapped) => {
            draft.path = Some(path.clone());
            draft.line = Some(mapped.line);
            draft.side = Some(mapped.side);
            draft.start_line = mapped.start_line;
            draft.start_side = mapped.start_side;
            draft.mapping_status = PullRequestCommentMappingStatus::Inline;
            draft.mapping_note = None;
        },
        None => {},
    }
    draft
}

/// The inline and the overview-only drafts of `issues`, each in issue order.
pub open spec fn review_drafts(issues: Seq<IssueModel>, files: Seq<FileLinesModel>) -> (Seq<CommentDraftModel>, Seq<CommentDraftModel>)
    decreases issues.len(),
{
    if issues.len() == 0 {
        (seq![], seq![])
    } else {
        let p = review_drafts(issues.drop_last(), files);
        let d = draft_spec(issues.last(), files);
        if d.mapping_status == PullRequestCommentMappingStatus::Inline {
            (p.0.push(d), p.1)
        } else {
            (p.0, p.1.push(d))
        }
    }
}

/// Builds the review for a pull request: the overview comment and one
/// draft per issue, inline where the issue's lines map onto the diff.
pub fn build_review_draft(overview_body: String, issues: &[CanonicalIssue], diff: &str) -> (r: PullRequestReviewDraft)
    requires
        index_fits(lines_of(diff@)),
    ensures
        r.overview_comment.body@ == overview_body@,
        (draft_models(r.inline_comments@), draft_models(r.overview_only_comments@)) == review_drafts(
            issue_models(issues@),
            index_scan(lines_of(diff@)).3,
        ),
{
    let index = DiffIndex::from_patch(diff);
    let ghost files = index.model();
    let mut inline_comments: Vec<PullRequestCommentDraft> = Vec::new();
    let mut overview_only_comments: Vec<PullRequestCommentDraft> = Vec::new();
    let mut i: usize = 0;
    while i < issues.len()
        invariant
            i <= issues@.len(),
            files == index.model(),
            (draft_models(inline_comments@), draft_models(overview_only_comments@)) == review_drafts(
                issue_models(issues@).take(i as int),
                files,
            ),
        decreases issues.len() - i,
    {
        let ghost im = issue_models(issues@);
        assert(im.take(i + 1).drop_last() =~= im.take(i as int));
        assert(im.take(i + 1).last() == issues@[i as int]@);
        let draft = build_comment_draft(&issues[i], &index);
        let ghost bi = draft_models(inline_comments@);
        let ghost bo = draft_models(overview_only_comments@);
        if draft.mapping_status == PullRequestCommentMappingStatus::Inline {
            inline_comments.push(draft);
            assert(draft_models(inline_comments@) =~= bi.push(draft@));
        } else {
            overview_only_comments.push(draft);
            assert(draft_models(overview_only_comments@) =~= bo.push(draft@));
        }
        i += 1;
    }
    assert(issue_models(issues@).take(issues@.len() as int) =~= issue_models(issues@));
    PullRequestReviewDraft {
        overview_comment: PullRequestOverviewComment { body: overview_body },
        inline_comments,
        overview_only_comments,
    }
}

/// Every issue gets exactly one draft: the inline drafts and the
/// overview-only drafts together are as many as the issues, the first all
/// mapped inline and the second none of them.
pub proof fn law_drafts_partition(issues: Seq<IssueModel>, files: Seq<FileLinesModel>)
    ensures
        review_drafts(issues, files).0.len() + review_drafts(issues, files).1.len() == issues.len(),
        forall|k: int|
            0 <= k < review_drafts(issues, files).0.len() ==> (#[trigger] review_drafts(issues, files).0[k]).mapping_status
                == PullRequestCommentMappingStatus::Inline,
        forall|k: int|
            0 <= k < review_drafts(issues, files).1.len() ==> (#[trigger] review_drafts(issues, files).1[k]).mapping_status
                != PullRequestCommentMappingStatus::Inline,
    decreases issues.len(),
{
    if issues.len() > 0 {
        law_drafts_partition(issues.drop_last(), files);
    }
}

} // verus!
