//! Publishing a review to a GitHub pull request: the dry-run text, the
//! review body with its markers, the inline comments that can be posted, and
//! whether this head commit was already reviewed.
use vstd::prelude::*;
use crate::pr_review::{draft_models, CommentDraftModel, PullRequestCommentDraft, PullRequestCommentSide, PullRequestReviewDraft};
use crate::report::opt_str;
use crate::review_report::ReviewReport;
use crate::text::{chars_of, contains_exec, contains_seq, decimal, push_decimal, push_str, push_string};

verus! {

/// The pull request a review is published to.
#[derive(Clone, Debug)]
pub struct GithubReviewContext {
    pub number: u64,
    pub url: String,
    pub repo: String,
    pub head_sha: String,
}

/// Why a GitHub action cannot proceed.
#[derive(Clone, Copy, Debug, PartialEq, Eq, Structural)]
pub enum GithubError {
    /// The report holds no pull-request review draft.
    NoReviewDraft,
}

pub open spec fn inline_lines(cs: Seq<CommentDraftModel>) -> Seq<char>
    decreases cs.len(),
{
    if cs.len() == 0 {
        seq![]
    } else {
        let c = cs.last();
        inline_lines(cs.drop_last()) + "- "@ + match c.path {
            Some(p) => p,
            None => "<unknown>"@,
        } + ":"@ + match c.line {
            Some(l) => decimal(l as nat),
            None => "?"@,
        } + " "@ + c.title + "\n"@ + c.body + "\n"@
    }
}

pub open spec fn overview_only_lines(cs: Seq<CommentDraftModel>) -> Seq<char>
    decreases cs.len(),
{
    if cs.len() == 0 {
        seq![]
    } else {
        let c = cs.last();
        overview_only_lines(cs.drop_last()) + "- "@ + c.title + " ("@ + match c.mapping_note {
            Some(n) => n,
            None => seq![],
        } + ")\n"@
    }
}

pub open spec fn dry_run_spec(url: Seq<char>, repo: Seq<char>, overview: Seq<char>, inline: Seq<CommentDraftModel>, only: Seq<CommentDraftModel>) -> Seq<char> {
    "GitHub review dry run\nPR: "@ + url + "\nRepo: "@ + repo + "\nInline comments: "@ + decimal(inline.len())
        + "\nOverview-only comments: "@ + decimal(only.len()) + "\n"@ + "\nOverview:\n"@ + overview
        + "\n\nInline comments:\n"@ + inline_lines(inline) + if only.len() == 0 {
        seq![]
    } else {
        "\nOverview-only comments:\n"@ + overview_only_lines(only)
    }
}

fn push_inline_lines(out: &mut String, cs: &Vec<PullRequestCommentDraft>)
    ensures
        final(out)@ == old(out)@ + inline_lines(draft_models(cs@)),
{
    let ghost m = draft_models(cs@);
    let ghost start = out@;
    let mut i: usize = 0;
    while i < cs.len()
        invariant
            i <= cs@.len(),
            m == draft_models(cs@),
            out@ == start + inline_lines(m.take(i as int)),
        decreases cs.len() - i,
    {
        assert(m.take(i + 1).drop_last() =~= m.take(i as int));
        assert(m.take(i + 1).last() == cs@[i as int]@);
        let c = &cs[i];
        push_str(out, "- ");
        match &c.path {
            Some(p) => push_string(out, p),
            None => push_str(out, "<unknown>"),
        }
        push_str(out, ":");
        match c.line {
            Some(l) => push_decimal(out, l as u64),
            None => push_str(out, "?"),
        }
        push_str(out, " ");
        push_string(out, &c.title);
        push_str(out, "\n");
        push_string(out, &c.body);
        push_str(out, "\n");
        assert(out@ =~= start + inline_lines(m.take(i + 1)));
        i += 1;
    }
    assert(m.take(m.len() as int) =~= m);
}

fn push_overview_only_lines(out: &mut String, cs: &Vec<PullRequestCommentDraft>)
    ensures
        final(out)@ == old(out)@ + overview_only_lines(draft_models(cs@)),
{
    let ghost m = draft_models(cs@);
    let ghost start = out@;
    let mut i: usize = 0;
    while i < cs.len()
        invariant
            i <= cs@.len(),
            m == draft_models(cs@),
            out@ == start + overview_only_lines(m.take(i as int)),
        decreases cs.len() - i,
    {
        assert(m.take(i + 1).drop_last() =~= m.take(i as int));
        assert(m.take(i + 1).last() == cs@[i as int]@);
        let c = &cs[i];
        push_str(out, "- ");
        push_string(out, &c.title);
        push_str(out, " (");
        match &c.mapping_note {
            Some(n) => push_string(out, n),
            None => {},
        }
        push_str(out, ")\n");
        assert(out@ =~= start + overview_only_lines(m.take(i + 1)));
        i += 1;
    }
    assert(m.take(m.len() as int) =~= m);
}

/// What publishing would post, as text: the pull request, the comment
/// counts, the overview, each inline comment, and the comments that could
/// not be placed on the diff.
pub fn render_github_dry_run(report: &ReviewReport, ctx: &GithubReviewContext) -> (r: Result<String, GithubError>)
    ensures
        match report.pr_review_draft {
            None => r == Err::<String, GithubError>(GithubError::NoReviewDraft),
            Some(d) => r is Ok && r.unwrap()@ == dry_run_spec(
                ctx.url@,
                ctx.repo@,
                d.overview_comment.body@,
                draft_models(d.inline_comments@),
                draft_models(d.overview_only_comments@),
            ),
        },
{
    let draft = match &report.pr_review_draft {
        Some(d) => d,
        None => {
            return Err(GithubError::NoReviewDraft);
        },
    };
    let mut out = "GitHub review dry run\nPR: ".to_owned();
    push_string(&mut out, &ctx.url);
    push_str(&mut out, "\nRepo: ");
    push_string(&mut out, &ctx.repo);
    push_str(&mut out, "\nInline comments: ");
    push_decimal(&mut out, draft.inline_comments.len() as u64);
    push_str(&mut out, "\nOverview-only comments: ");
    push_decimal(&mut out, draft.overview_only_comments.len() as u64);
    push_str(&mut out, "\n");
    push_str(&mut out, "\nOverview:\n");
    push_string(&mut out, &draft.overview_comment.body);
    push_str(&mut out, "\n\nInline comments:\n");
    push_inline_lines(&mut out, &draft.inline_comments);
    let ghost mid = out@;
    if draft.overview_only_comments.len() > 0 {
        push_str(&mut out, "\nOverview-only comments:\n");
        push_overview_only_lines(&mut out, &draft.overview_only_comments);
    }
    assert(out@ =~= dry_run_spec(
        ctx.url@,
        ctx.repo@,
        draft.overview_comment.body@,
        draft_models(draft.inline_comments@),
        draft_models(draft.overview_only_comments@),
    ));
    Ok(out)
}

/// The marker that tags a review of one head commit.
pub open spec fn head_marker(head_sha: Seq<char>) -> Seq<char> {
    "<!-- crucible-head:"@ + head_sha + " -->"@
}

pub fn head_marker_text(head_sha: &str) -> (r: String)
    ensures
        r@ == head_marker(head_sha@),
{
    let mut out = "<!-- crucible-head:".to_owned();
    push_str(&mut out, head_sha);
    push_str(&mut out, " -->");
    out
}

/// Some existing review of the pull request carries the marker of this
/// head commit (a review without a body carries none).
pub open spec fn carries_marker(body: Option<Seq<char>>, head_sha: Seq<char>) -> bool {
    match body {
        Some(b) => contains_seq(b, head_marker(head_sha)),
        None => false,
    }
}

pub open spec fn already_reviewed(bodies: Seq<Option<Seq<char>>>, head_sha: Seq<char>) -> bool {
    exists|i: int| 0 <= i < bodies.len() && carries_marker(#[trigger] bodies[i], head_sha)
}

pub fn is_already_reviewed(bodies: &Vec<Option<String>>, head_sha: &str) -> (r: bool)
    ensures
        r == already_reviewed(bodies@.map_values(|b: Option<String>| opt_str(b)), head_sha@),
{
    let ghost bm = bodies@.map_values(|b: Option<String>| opt_str(b));
    let marker = head_marker_text(head_sha);
    let mc = chars_of(marker.as_str());
    let mut i: usize = 0;
    while i < bodies.len()
        invariant
            i <= bodies@.len(),
            bm == bodies@.map_values(|b: Option<String>| opt_str(b)),
            mc@ == head_marker(head_sha@),
            forall|k: int| 0 <= k < i ==> !carries_marker(#[trigger] bm[k], head_sha@),
        decreases bodies.len() - i,
    {
        assert(bm[i as int] == opt_str(bodies@[i as int]));
        match &bodies[i] {
            Some(b) => {
                let bc = chars_of(b.as_str());
                if contains_exec(bc.as_slice(), mc.as_slice()) {
                    assert(carries_marker(bm[i as int], head_sha@));
                    return true;
                }
            },
            None => {},
        }
        i += 1;
    }
    false
}

pub open spec fn additional_lines(cs: Seq<CommentDraftModel>) -> Seq<char>
    decreases cs.len(),
{
    if cs.len() == 0 {
        seq![]
    } else {
        additional_lines(cs.drop_last()) + "- **"@ + cs.last().title + "**: "@ + cs.last().description + "\n"@
    }
}

/// The body of the published review: the overview, the issues that could
/// not be placed on the diff, and the run and head markers.
pub open spec fn review_body_spec(overview: Seq<char>, only: Seq<CommentDraftModel>, run_id: Seq<char>, head_sha: Seq<char>) -> Seq<char> {
    overview + (if only.len() == 0 {
        seq![]
    } else {
        "\n\n### Additional Issues Not Mapped To Diff Hunks\n"@ + additional_lines(only)
    }) + "\n\n<!-- crucible-run:"@ + run_id + " -->\n"@ + head_marker(head_sha) + "\n"@
}

pub fn github_review_body(draft: &PullRequestReviewDraft, run_id: &str, head_sha: &str) -> (r: String)
    ensures
        r@ == review_body_spec(draft.overview_comment.body@, draft_models(draft.overview_only_comments@), run_id@, head_sha@),
{
    let mut out = draft.overview_comment.body.clone();
    let ghost head = out@;
    let cs = &draft.overview_only_comments;
    let ghost m = draft_models(cs@);
    if cs.len() > 0 {
        push_str(&mut out, "\n\n### Additional Issues Not Mapped To Diff Hunks\n");
        let ghost start = out@;
        let mut i: usize = 0;
        while i < cs.len()
            invariant
                i <= cs@.len(),
                m == draft_models(cs@),
                out@ == start + additional_lines(m.take(i as int)),
            decreases cs.len() - i,
        {
            assert(m.take(i + 1).drop_last() =~= m.take(i as int));
            assert(m.take(i + 1).last() == cs@[i as int]@);
            push_str(&mut out, "- **");
            push_string(&mut out, &cs[i].title);
            push_str(&mut out, "**: ");
            push_string(&mut out, &cs[i].description);
            push_str(&mut out, "\n");
            assert(out@ =~= start + additional_lines(m.take(i + 1)));
            i += 1;
        }
        assert(m.take(m.len() as int) =~= m);
    }
    let ghost mid = out@;
    push_str(&mut out, "\n\n<!-- crucible-run:");
    push_str(&mut out, run_id);
    push_str(&mut out, " -->\n");
    let marker = head_marker_text(head_sha);
    push_string(&mut out, &marker);
    push_str(&mut out, "\n");
    assert(out@ =~= review_body_spec(draft.overview_comment.body@, m, run_id@, head_sha@));
    out
}

/// An inline comment as posted: path, body, line, side, and the start of a
/// multi-line range.
#[derive(Clone, Debug)]
pub struct PostedComment {
    pub path: String,
    pub body: String,
    pub line: u32,
    pub side: PullRequestCommentSide,
    pub start_line: Option<u32>,
    pub start_side: Option<PullRequestCommentSide>,
}

pub open spec fn postable(c: CommentDraftModel) -> bool {
    c.path is Some && c.line is Some && c.side is Some
}

pub open spec fn posted_of(c: CommentDraftModel) -> (Seq<char>, Seq<char>, u32, PullRequestCommentSide, Option<u32>, Option<PullRequestCommentSide>) {
    (c.path->0, c.body, c.line->0, c.side->0, c.start_line, c.start_side)
}

/// The inline comments that have a path, a line and a side, in order.
pub open spec fn posted_spec(cs: Seq<CommentDraftModel>) -> Seq<(Seq<char>, Seq<char>, u32, PullRequestCommentSide, Option<u32>, Option<PullRequestCommentSide>)>
    decreases cs.len(),
{
    if cs.len() == 0 {
        seq![]
    } else if postable(cs.last()) {
        posted_spec(cs.drop_last()).push(posted_of(cs.last()))
    } else {
        posted_spec(cs.drop_last())
    }
}

pub open spec fn posted_models(v: Seq<PostedComment>) -> Seq<(Seq<char>, Seq<char>, u32, PullRequestCommentSide, Option<u32>, Option<PullRequestCommentSide>)> {
    v.map_values(|p: PostedComment| (p.path@, p.body@, p.line, p.side, p.start_line, p.start_side))
}

pub fn postable_comments(cs: &Vec<PullRequestCommentDraft>) -> (r: Vec<PostedComment>)
    ensures
        posted_models(r@) == posted_spec(draft_models(cs@)),
{
    let ghost m = draft_models(cs@);
    let mut out: Vec<PostedComment> = Vec::new();
    let mut i: usize = 0;
    while i < cs.len()
        invariant
            i <= cs@.len(),
            m == draft_models(cs@),
            posted_models(out@) == posted_spec(m.take(i as int)),
        decreases cs.len() - i,
    {
        assert(m.take(i + 1).drop_last() =~= m.take(i as int));
        assert(m.take(i + 1).last() == cs@[i as int]@);
        let c = &cs[i];
        match (&c.path, c.line, c.side) {
            (Some(p), Some(l), Some(s)) => {
                let ghost before = posted_models(out@);
                out.push(PostedComment { path: p.clone(), body: c.body.clone(), line: l, side: s, start_line: c.start_line, start_side: c.start_side });
                assert(posted_models(out@) =~= before.push(posted_of(c@)));
            },
            _ => {},
        }
        i += 1;
    }
    assert(m.take(m.len() as int) =~= m);
    out
}

} // verus!
