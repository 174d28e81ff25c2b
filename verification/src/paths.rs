//! Paths as `std::path::Path` reads them: a file's name and extension, the
//! attachments named by paths, and the files a patch changes in path order.
use vstd::prelude::*;
use crate::consensus::TaskAttachment;
use crate::order::Order3;
use crate::reference::{components, path_components};
use crate::report::{opt_str, strs};
use crate::synthesis::{comps_lt, comps_order, path_lt};
use crate::task_pack::AttachmentKind;
use crate::text::{chars_of, has_prefix, lines, lines_of, push_char, push_decimal, push_str, seqs, slice_range, starts_with, str_eq, string_of};
use crate::tracker::paths_eq;

verus! {

/// A component that names a file or directory (not the root, `.` or `..`).
pub open spec fn is_named(c: Seq<char>) -> bool {
    c != seq!['/'] && c != seq!['.'] && c != seq!['.', '.']
}

/// The last component when it is a name (`Path::file_name`).
pub open spec fn file_name_spec(p: Seq<char>) -> Option<Seq<char>> {
    let c = components(p);
    if c.len() > 0 && is_named(c.last()) {
        Some(c.last())
    } else {
        None
    }
}

/// The position of the last `'.'` in `s` before `i`.
pub open spec fn last_dot_before(s: Seq<char>, i: int) -> Option<int>
    decreases i,
{
    if i <= 0 {
        None
    } else if s[i - 1] == '.' {
        Some(i - 1)
    } else {
        last_dot_before(s, i - 1)
    }
}

/// The text after the last `'.'` of a file name, unless that dot starts
/// the name (`Path::extension`).
pub open spec fn extension_spec(p: Seq<char>) -> Option<Seq<char>> {
    match file_name_spec(p) {
        None => None,
        Some(n) => match last_dot_before(n, n.len() as int) {
            Some(k) => if k > 0 {
                Some(n.skip(k + 1))
            } else {
                None
            },
            None => None,
        },
    }
}

proof fn lemma_last_dot_range(s: Seq<char>, i: int)
    requires
        0 <= i <= s.len(),
    ensures
        last_dot_before(s, i) matches Some(k) ==> 0 <= k < i && s[k] == '.',
    decreases i,
{
    if i > 0 && s[i - 1] != '.' {
        lemma_last_dot_range(s, i - 1);
    }
}

fn file_name_of(p: &str) -> (r: Option<Vec<char>>)
    ensures
        match r {
            Some(n) => file_name_spec(p@) == Some(n@),
            None => file_name_spec(p@) is None,
        },
{
    let pc = chars_of(p);
    let comps = path_components(pc.as_slice());
    if comps.len() == 0 {
        return None;
    }
    let last = &comps[comps.len() - 1];
    assert(seqs(comps@).last() == last@);
    let root = chars_of("/");
    let dot = chars_of(".");
    let dotdot = chars_of("..");
    proof {
        reveal_strlit("/");
        reveal_strlit(".");
        reveal_strlit("..");
        assert("/"@ =~= seq!['/']);
        assert("."@ =~= seq!['.']);
        assert(".."@ =~= seq!['.', '.']);
    }
    if crate::text::chars_eq(last.as_slice(), root.as_slice()) || crate::text::chars_eq(last.as_slice(), dot.as_slice())
        || crate::text::chars_eq(last.as_slice(), dotdot.as_slice()) {
        return None;
    }
    Some(slice_range(last.as_slice(), 0, last.len()))
}

fn extension_of(p: &str) -> (r: Option<Vec<char>>)
    ensures
        match r {
            Some(e) => extension_spec(p@) == Some(e@),
            None => extension_spec(p@) is None,
        },
{
    let name = match file_name_of(p) {
        Some(n) => n,
        None => {
            return None;
        },
    };
    let mut i: usize = name.len();
    while i > 0 && name[i - 1] != '.'
        invariant
            i <= name@.len(),
            last_dot_before(name@, name@.len() as int) == last_dot_before(name@, i as int),
        decreases i,
    {
        i -= 1;
    }
    if i == 0 {
        return None;
    }
    assert(last_dot_before(name@, i as int) == Some(i - 1));
    if i - 1 == 0 {
        return None;
    }
    let e = slice_range(name.as_slice(), i, name.len());
    assert(e@ =~= name@.skip(i as int));
    Some(e)
}

pub open spec fn kind_for_extension(e: Option<Seq<char>>) -> AttachmentKind {
    match e {
        Some(x) => if x == "md"@ {
            AttachmentKind::Markdown
        } else if x == "diff"@ || x == "patch"@ {
            AttachmentKind::Diff
        } else if x == "rs"@ || x == "ts"@ || x == "tsx"@ || x == "js"@ || x == "py"@ || x == "go"@ {
            AttachmentKind::SourceFile
        } else {
            AttachmentKind::Text
        },
        None => AttachmentKind::Text,
    }
}

/// Markdown, diffs and source files by extension; anything else is text.
pub fn guess_attachment_kind(path: &str) -> (r: AttachmentKind)
    ensures
        r == kind_for_extension(extension_spec(path@)),
{
    match extension_of(path) {
        Some(e) => {
            let es = string_of(e.as_slice());
            let x = es.as_str();
            if str_eq(x, "md") {
                AttachmentKind::Markdown
            } else if str_eq(x, "diff") || str_eq(x, "patch") {
                AttachmentKind::Diff
            } else if str_eq(x, "rs") || str_eq(x, "ts") || str_eq(x, "tsx") || str_eq(x, "js") || str_eq(x, "py")
                || str_eq(x, "go") {
                AttachmentKind::SourceFile
            } else {
                AttachmentKind::Text
            }
        },
        None => AttachmentKind::Text,
    }
}

pub type AttachmentModel = (Seq<char>, AttachmentKind, Option<Seq<char>>, Option<Seq<char>>);

pub open spec fn attachment_models(v: Seq<TaskAttachment>) -> Seq<AttachmentModel> {
    v.map_values(|a: TaskAttachment| (a.id@, a.kind, opt_str(a.path), opt_str(a.inline)))
}

/// A file attachment: named by its file name (or `attachment`), of the
/// kind its extension suggests.
pub open spec fn file_attachment(p: Seq<char>) -> AttachmentModel {
    (
        match file_name_spec(p) {
            Some(n) => n,
            None => "attachment"@,
        },
        kind_for_extension(extension_spec(p)),
        Some(p),
        None,
    )
}

pub open spec fn inline_attachments(texts: Seq<Seq<char>>) -> Seq<AttachmentModel>
    decreases texts.len(),
{
    if texts.len() == 0 {
        seq![]
    } else {
        inline_attachments(texts.drop_last()).push(
            ("inline-"@ + crate::text::decimal(texts.len()), AttachmentKind::Text, None, Some(texts.last())),
        )
    }
}

pub open spec fn attachments_spec(files: Seq<Seq<char>>, texts: Seq<Seq<char>>) -> Seq<AttachmentModel> {
    files.map_values(|p: Seq<char>| file_attachment(p)) + inline_attachments(texts)
}

/// The attachments of a task: the files first, then the inline texts
/// numbered from one.
pub fn build_attachments(files: Vec<String>, inline_texts: Vec<String>) -> (r: Vec<TaskAttachment>)
    requires
        inline_texts@.len() < u64::MAX,
    ensures
        attachment_models(r@) == attachments_spec(strs(files@), strs(inline_texts@)),
{
    let ghost fm = strs(files@);
    let ghost tm = strs(inline_texts@);
    let mut out: Vec<TaskAttachment> = Vec::new();
    let mut i: usize = 0;
    while i < files.len()
        invariant
            i <= files@.len(),
            fm == strs(files@),
            attachment_models(out@) == fm.take(i as int).map_values(|p: Seq<char>| file_attachment(p)),
        decreases files.len() - i,
    {
        let p = &files[i];
        let id = match file_name_of(p.as_str()) {
            Some(n) => string_of(n.as_slice()),
            None => "attachment".to_owned(),
        };
        let ghost before = attachment_models(out@);
        out.push(TaskAttachment { id, kind: guess_attachment_kind(p.as_str()), path: Some(p.clone()), inline: None });
        assert(attachment_models(out@) =~= before.push(file_attachment(fm[i as int])));
        assert(fm.take(i + 1).map_values(|p: Seq<char>| file_attachment(p)) =~= fm.take(i as int).map_values(
            |p: Seq<char>| file_attachment(p),
        ).push(file_attachment(fm[i as int])));
        i += 1;
    }
    assert(fm.take(fm.len() as int) =~= fm);
    let ghost head = attachment_models(out@);
    let mut j: usize = 0;
    while j < inline_texts.len()
        invariant
            j <= inline_texts@.len(),
            inline_texts@.len() < u64::MAX,
            tm == strs(inline_texts@),
            attachment_models(out@) == head + inline_attachments(tm.take(j as int)),
        decreases inline_texts.len() - j,
    {
        assert(tm.take(j + 1).drop_last() =~= tm.take(j as int));
        assert(tm.take(j + 1).last() == inline_texts@[j as int]@);
        assert(tm.take(j + 1).len() == j + 1);
        let mut id = "inline-".to_owned();
        push_decimal(&mut id, (j + 1) as u64);
        let ghost before = attachment_models(out@);
        let ghost idm = id@;
        assert(idm == "inline-"@ + crate::text::decimal((j + 1) as nat));
        let ghost elem: AttachmentModel = (idm, AttachmentKind::Text, None, Some(inline_texts@[j as int]@));
        out.push(
            TaskAttachment { id, kind: AttachmentKind::Text, path: None, inline: Some(inline_texts[j].clone()) },
        );
        assert(attachment_models(out@) =~= before.push(elem));
        assert(inline_attachments(tm.take(j + 1)) == inline_attachments(tm.take(j as int)).push(elem));
        assert(attachment_models(out@) =~= head + inline_attachments(tm.take(j + 1)));
        j += 1;
    }
    assert(tm.take(tm.len() as int) =~= tm);
    out
}

// ---------------------------------------------------------------------
// Files a patch changes
// ---------------------------------------------------------------------

/// The new-side paths of a patch's `+++ b/` lines, other than `/dev/null`.
pub open spec fn patch_paths(ls: Seq<Seq<char>>) -> Seq<Seq<char>>
    decreases ls.len(),
{
    if ls.len() == 0 {
        seq![]
    } else {
        let p = patch_paths(ls.drop_last());
        let l = ls.last();
        if starts_with(l, "+++ b/"@) && l.skip(6) != "/dev/null"@ {
            p.push(l.skip(6))
        } else {
            p
        }
    }
}

/// Where `x` goes in `s[i..]`: before the first path it sorts before.
pub open spec fn path_ins_pos(s: Seq<Seq<char>>, x: Seq<char>, i: int) -> int
    decreases s.len() - i,
{
    if i < 0 || i >= s.len() {
        s.len() as int
    } else if path_lt(x, s[i]) {
        i
    } else {
        path_ins_pos(s, x, i + 1)
    }
}

/// The paths in path order, equal paths in input order (a stable sort).
pub open spec fn sort_paths_spec(s: Seq<Seq<char>>) -> Seq<Seq<char>>
    decreases s.len(),
{
    if s.len() == 0 {
        seq![]
    } else {
        let t = sort_paths_spec(s.drop_last());
        t.insert(path_ins_pos(t, s.last(), 0), s.last())
    }
}

/// Each run of equal paths reduced to its first.
pub open spec fn dedup_paths(s: Seq<Seq<char>>) -> Seq<Seq<char>>
    decreases s.len(),
{
    if s.len() == 0 {
        s
    } else {
        let d = dedup_paths(s.drop_last());
        if s.len() >= 2 && paths_eq(s.last(), s[s.len() - 2]) {
            d
        } else {
            d.push(s.last())
        }
    }
}

pub open spec fn changed_files_spec(diff: Seq<char>) -> Seq<Seq<char>> {
    dedup_paths(sort_paths_spec(patch_paths(lines_of(diff))))
}

proof fn lemma_path_ins_pos_range(s: Seq<Seq<char>>, x: Seq<char>, i: int)
    requires
        0 <= i <= s.len(),
    ensures
        i <= path_ins_pos(s, x, i) <= s.len(),
    decreases s.len() - i,
{
    if i < s.len() && !path_lt(x, s[i]) {
        lemma_path_ins_pos_range(s, x, i + 1);
    }
}

fn sort_paths(v: &Vec<String>) -> (r: Vec<String>)
    ensures
        strs(r@) == sort_paths_spec(strs(v@)),
{
    let ghost orig = strs(v@);
    let mut out: Vec<String> = Vec::new();
    let mut comps: Vec<Vec<Vec<char>>> = Vec::new();
    let mut i: usize = 0;
    while i < v.len()
        invariant
            i <= v@.len(),
            orig == strs(v@),
            comps@.len() == out@.len(),
            forall|k: int| 0 <= k < out@.len() ==> seqs(#[trigger] comps@[k]@) == components(out@[k]@),
            strs(out@) == sort_paths_spec(orig.take(i as int)),
        decreases v.len() - i,
    {
        let ghost t = strs(out@);
        assert(orig.take(i + 1).drop_last() =~= orig.take(i as int));
        assert(orig.take(i + 1).last() == v@[i as int]@);
        let xc = chars_of(v[i].as_str());
        let xcomps = path_components(xc.as_slice());
        let mut p: usize = 0;
        while p < out.len() && comps_order(&xcomps, &comps[p]) != Order3::Less
            invariant
                p <= out@.len(),
                comps@.len() == out@.len(),
                forall|k: int| 0 <= k < out@.len() ==> seqs(#[trigger] comps@[k]@) == components(out@[k]@),
                t == strs(out@),
                seqs(xcomps@) == components(v@[i as int]@),
                i < v@.len(),
                path_ins_pos(t, v@[i as int]@, 0) == path_ins_pos(t, v@[i as int]@, p as int),
            decreases out.len() - p,
        {
            assert(seqs(comps@[p as int]@) == components(out@[p as int]@));
            assert(t[p as int] == out@[p as int]@);
            p += 1;
        }
        proof {
            if p < out@.len() {
                assert(seqs(comps@[p as int]@) == components(out@[p as int]@));
                assert(t[p as int] == out@[p as int]@);
            }
            lemma_path_ins_pos_range(t, v@[i as int]@, 0);
        }
        let ghost oc = comps@;
        let ghost oo = out@;
        out.insert(p, v[i].clone());
        comps.insert(p, xcomps);
        assert(strs(out@) =~= t.insert(p as int, v@[i as int]@));
        assert forall|k: int| 0 <= k < out@.len() implies seqs(#[trigger] comps@[k]@) == components(out@[k]@) by {
            if k < p {
                assert(comps@[k] == oc[k] && out@[k] == oo[k]);
            } else if k > p {
                assert(comps@[k] == oc[k - 1] && out@[k] == oo[k - 1]);
            }
        }
        i += 1;
    }
    assert(orig.take(orig.len() as int) =~= orig);
    out
}

/// The files a patch changes (its `+++ b/` paths), in path order, each
/// once.
pub fn changed_files_from_patch(diff: &str) -> (r: Vec<String>)
    ensures
        strs(r@) == changed_files_spec(diff@),
{
    let dc = chars_of(diff);
    let ls = lines(dc.as_slice());
    let ghost lm = lines_of(diff@);
    let prefix = chars_of("+++ b/");
    let devnull = chars_of("/dev/null");
    proof {
        reveal_strlit("+++ b/");
    }
    let mut found: Vec<String> = Vec::new();
    let mut i: usize = 0;
    while i < ls.len()
        invariant
            i <= ls@.len(),
            seqs(ls@) == lm,
            prefix@ == "+++ b/"@,
            prefix@.len() == 6,
            devnull@ == "/dev/null"@,
            strs(found@) == patch_paths(lm.take(i as int)),
        decreases ls.len() - i,
    {
        assert(lm.take(i + 1).drop_last() =~= lm.take(i as int));
        assert(lm.take(i + 1).last() == ls@[i as int]@);
        let l = ls[i].as_slice();
        if has_prefix(l, prefix.as_slice()) {
            let rest = slice_range(l, 6, l.len());
            assert(rest@ =~= ls@[i as int]@.skip(6));
            if !crate::text::chars_eq(rest.as_slice(), devnull.as_slice()) {
                let ghost before = strs(found@);
                found.push(string_of(rest.as_slice()));
                assert(strs(found@) =~= before.push(rest@));
            }
        }
        i += 1;
    }
    assert(lm.take(lm.len() as int) =~= lm);
    sorted_unique_paths(&found)
}

/// The paths in path order, each once (`sort` then `dedup`).
pub fn sorted_unique_paths(found: &Vec<String>) -> (r: Vec<String>)
    ensures
        strs(r@) == dedup_paths(sort_paths_spec(strs(found@))),
{
    let sorted = sort_paths(&found);
    let ghost sm = strs(sorted@);
    let mut out: Vec<String> = Vec::new();
    let mut prev: Option<Vec<Vec<char>>> = None;
    let mut k: usize = 0;
    while k < sorted.len()
        invariant
            k <= sorted@.len(),
            sm == strs(sorted@),
            strs(out@) == dedup_paths(sm.take(k as int)),
            k == 0 <==> prev is None,
            prev matches Some(pc) ==> k > 0 && seqs(pc@) == components(sm[k - 1]),
        decreases sorted.len() - k,
    {
        assert(sm.take(k + 1).drop_last() =~= sm.take(k as int));
        assert(sm.take(k + 1).last() == sorted@[k as int]@);
        let cc = chars_of(sorted[k].as_str());
        let comps = path_components(cc.as_slice());
        let same = match &prev {
            Some(pc) => comps_order(&comps, pc) == Order3::Equal,
            None => false,
        };
        if k > 0 {
            assert(sm.take(k + 1)[k - 1] == sm[k - 1]);
        }
        if !same {
            let ghost before = strs(out@);
            out.push(sorted[k].clone());
            assert(strs(out@) =~= before.push(sm[k as int]));
        }
        prev = Some(comps);
        k += 1;
    }
    assert(sm.take(sm.len() as int) =~= sm);
    out
}



/// What a line of a patch adds to its text: an added, removed or context
/// line keeps its origin character in front of its content; headers and
/// other lines are their content alone.
pub open spec fn diff_line_text(origin: char, content: Seq<char>) -> Seq<char> {
    if origin == '+' || origin == '-' || origin == ' ' {
        seq![origin] + content
    } else {
        content
    }
}

pub fn push_diff_line(buf: &mut String, origin: char, content: &str)
    ensures
        final(buf)@ == old(buf)@ + diff_line_text(origin, content@),
{
    if origin == '+' || origin == '-' || origin == ' ' {
        let ghost b0 = buf@;
        push_char(buf, origin);
        push_str(buf, content);
        assert(buf@ =~= b0 + diff_line_text(origin, content@));
    } else {
        push_str(buf, content);
    }
}

} // verus!
