//! The command line's arguments as plain values, and the decisions the
//! `review` command takes from them before any work: settings overrides,
//! which change to review, and how the run ends.
use vstd::prelude::*;
use crate::config::CrucibleConfig;
use crate::report::{opt_str, strs, Verdict};
use crate::text::{chars_of, push_str, push_string, trim, trim_of};

verus! {

pub enum ConfigCommand {
    Init { full: bool, global: bool },
    Validate,
}

pub struct ConfigArgs {
    pub command: ConfigCommand,
}

#[derive(Clone, Copy, Debug, PartialEq, Eq, Structural)]
pub enum OutputFormat {
    Text,
    Json,
}

impl Default for OutputFormat {
    fn default() -> (r: Self)
        ensures
            r == OutputFormat::Text,
    {
        OutputFormat::Text
    }
}

pub struct RunArgs {
    pub pack: String,
    pub prompt: String,
    pub task_paths: Vec<String>,
    pub attachments: Vec<String>,
    pub inline_attachments: Vec<String>,
    pub format: OutputFormat,
}

pub struct ReplyArgs {
    pub session: String,
    pub message: String,
    pub task_paths: Vec<String>,
    pub format: OutputFormat,
}

pub struct PacksArgs {
    pub task_paths: Vec<String>,
}

pub enum ConsensusCommand {
    Run(RunArgs),
    Reply(ReplyArgs),
    Packs(PacksArgs),
}

pub struct ConsensusArgs {
    pub command: ConsensusCommand,
}

pub struct DoctorArgs {
    pub skip_probes: bool,
}

pub enum HookCommand {
    Install { force: bool },
    Uninstall,
    Status,
}

pub struct HookArgs {
    pub command: HookCommand,
}

pub struct PromptEvalArgs {
    pub dataset: String,
    pub out: String,
    pub fast: bool,
}

pub enum SessionCommand {
    List,
    Resume { id: String },
    Delete { id: String },
}

pub struct SessionArgs {
    pub command: SessionCommand,
}

pub struct ReviewArgs {
    pub pr: Option<String>,
    pub hook: bool,
    pub json: bool,
    pub export_issues: Option<String>,
    pub output_report: Option<String>,
    pub github_dry_run: bool,
    pub publish_github: bool,
    pub verbose: bool,
    pub debug: bool,
    pub interactive: bool,
    pub reviewer: Option<String>,
    pub max_rounds: Option<u8>,
    pub local: bool,
    pub repo: bool,
    pub branch: Option<String>,
    pub files: Vec<String>,
    pub git_remote: String,
}

/// Applies the review command's overrides: a single chosen agent runs
/// alone (one round, full agreement, unless rounds are given), and a given
/// round count, at least one, replaces the configured one.
pub fn apply_review_overrides(cfg: &mut CrucibleConfig, args: &ReviewArgs)
    ensures
        match args.reviewer {
            Some(a) => strs(final(cfg).plugins.agents@) == seq![a@],
            None => strs(final(cfg).plugins.agents@) == strs(old(cfg).plugins.agents@),
        },
        final(cfg).coordinator.max_rounds == match args.max_rounds {
            Some(n) => if n < 1 {
                1u8
            } else {
                n
            },
            None => if args.reviewer is Some {
                1u8
            } else {
                old(cfg).coordinator.max_rounds
            },
        },
        final(cfg).coordinator.quorum_permille == if args.reviewer is Some && args.max_rounds is None {
            1000
        } else {
            old(cfg).coordinator.quorum_permille
        },
{
    match &args.reviewer {
        Some(a) => {
            let mut agents: Vec<String> = Vec::new();
            agents.push(a.clone());
            assert(strs(agents@) =~= seq![a@]);
            cfg.plugins.agents = agents;
            if args.max_rounds.is_none() {
                cfg.coordinator.max_rounds = 1;
                cfg.coordinator.quorum_permille = 1000;
            }
        },
        None => {},
    }
    match args.max_rounds {
        Some(n) => {
            cfg.coordinator.max_rounds = if n < 1 {
                1
            } else {
                n
            };
        },
        None => {},
    }
}

/// The change a review looks at.
pub enum ReviewTarget {
    /// The current branch against its base, with local changes.
    CurrentBranchWithLocal,
    /// Uncommitted local changes.
    Local,
    /// The current branch against the remote default branch.
    Repo,
    /// The current branch against an explicit base branch.
    Branch(String),
    /// Selected files only.
    Files(Vec<String>),
    /// A pull request (number or URL).
    PullRequest(String),
}

/// Why the review command's arguments are refused.
#[derive(Clone, Copy, Debug, PartialEq, Eq, Structural)]
pub enum ReviewArgsError {
    /// Both GitHub actions were asked for.
    BothGithubActions,
    /// More than one target mode was given.
    SeveralTargets,
    /// A GitHub action was asked for without a pull request.
    GithubNeedsPullRequest,
}

pub open spec fn mode_count(args: ReviewArgs) -> int {
    (if args.local {
        1int
    } else {
        0
    }) + (if args.repo {
        1int
    } else {
        0
    }) + (if args.pr is Some {
        1int
    } else {
        0
    }) + (if args.branch is Some {
        1int
    } else {
        0
    }) + (if args.files@.len() > 0 {
        1int
    } else {
        0
    })
}

/// The target's kind, by the arguments: a pull request, a base branch,
/// files, local changes, the repository, or by default the current branch
/// with local changes.
pub open spec fn target_kind(args: ReviewArgs) -> int {
    if args.pr is Some {
        0
    } else if args.branch is Some {
        1
    } else if args.files@.len() > 0 {
        2
    } else if args.local {
        3
    } else if args.repo {
        4
    } else {
        5
    }
}

pub open spec fn target_model(t: ReviewTarget) -> (int, Seq<Seq<char>>) {
    match t {
        ReviewTarget::PullRequest(p) => (0, seq![p@]),
        ReviewTarget::Branch(b) => (1, seq![b@]),
        ReviewTarget::Files(f) => (2, strs(f@)),
        ReviewTarget::Local => (3, seq![]),
        ReviewTarget::Repo => (4, seq![]),
        ReviewTarget::CurrentBranchWithLocal => (5, seq![]),
    }
}

pub open spec fn target_spec(args: ReviewArgs) -> (int, Seq<Seq<char>>) {
    let k = target_kind(args);
    (k, if k == 0 {
        seq![args.pr->0@]
    } else if k == 1 {
        seq![args.branch->0@]
    } else if k == 2 {
        strs(args.files@)
    } else {
        seq![]
    })
}

/// Checks the review arguments and picks the target.
pub fn select_review_target(args: &ReviewArgs) -> (r: Result<ReviewTarget, ReviewArgsError>)
    ensures
        args.github_dry_run && args.publish_github ==> r == Err::<ReviewTarget, ReviewArgsError>(
            ReviewArgsError::BothGithubActions,
        ),
        !(args.github_dry_run && args.publish_github) && mode_count(*args) > 1 ==> r == Err::<ReviewTarget, ReviewArgsError>(
            ReviewArgsError::SeveralTargets,
        ),
        !(args.github_dry_run && args.publish_github) && mode_count(*args) <= 1 ==> match r {
            Ok(t) => target_model(t) == target_spec(*args) && !((args.github_dry_run || args.publish_github)
                && target_kind(*args) != 0),
            Err(e) => e == ReviewArgsError::GithubNeedsPullRequest && (args.github_dry_run || args.publish_github)
                && target_kind(*args) != 0,
        },
{
    if args.github_dry_run && args.publish_github {
        return Err(ReviewArgsError::BothGithubActions);
    }
    let mut count: u8 = 0;
    if args.local {
        count += 1;
    }
    if args.repo {
        count += 1;
    }
    if args.pr.is_some() {
        count += 1;
    }
    if args.branch.is_some() {
        count += 1;
    }
    if args.files.len() > 0 {
        count += 1;
    }
    if count > 1 {
        return Err(ReviewArgsError::SeveralTargets);
    }
    let target = match &args.pr {
        Some(pr) => ReviewTarget::PullRequest(pr.clone()),
        None => match &args.branch {
            Some(b) => ReviewTarget::Branch(b.clone()),
            None => if args.files.len() > 0 {
                let mut files: Vec<String> = Vec::new();
                let mut i: usize = 0;
                while i < args.files.len()
                    invariant
                        i <= args.files@.len(),
                        strs(files@) == strs(args.files@).take(i as int),
                    decreases args.files.len() - i,
                {
                    let ghost before = strs(files@);
                    files.push(args.files[i].clone());
                    assert(strs(files@) =~= before.push(args.files@[i as int]@));
                    assert(strs(args.files@).take(i + 1) =~= strs(args.files@).take(i as int).push(args.files@[i as int]@));
                    i += 1;
                }
                assert(strs(args.files@).take(args.files@.len() as int) =~= strs(args.files@));
                ReviewTarget::Files(files)
            } else if args.local {
                ReviewTarget::Local
            } else if args.repo {
                ReviewTarget::Repo
            } else {
                ReviewTarget::CurrentBranchWithLocal
            },
        },
    };
    let is_pr = match &target {
        ReviewTarget::PullRequest(_) => true,
        _ => false,
    };
    if (args.github_dry_run || args.publish_github) && !is_pr {
        return Err(ReviewArgsError::GithubNeedsPullRequest);
    }
    Ok(target)
}

/// The terminal interface runs only for an interactive terminal and when
/// no machine-readable output or GitHub action was asked for.
pub fn use_terminal_ui(args: &ReviewArgs, stdout_is_terminal: bool) -> (r: bool)
    ensures
        r == (!args.hook && args.export_issues is None && !args.json && !args.github_dry_run && !args.publish_github
            && stdout_is_terminal),
{
    !args.hook && args.export_issues.is_none() && !args.json && !args.github_dry_run && !args.publish_github
        && stdout_is_terminal
}

/// A hook run fails the push exactly when the review blocks.
pub fn hook_exit_code(verdict: Verdict) -> (r: i32)
    ensures
        r == if verdict == Verdict::Block {
            1i32
        } else {
            0i32
        },
{
    match verdict {
        Verdict::Block => 1,
        _ => 0,
    }
}

pub open spec fn scope_label_spec(t: ReviewTarget, head: Seq<char>, base: Option<Seq<char>>, remote: Seq<char>) -> Seq<char> {
    match t {
        ReviewTarget::CurrentBranchWithLocal => "Mode: branch+local | head: "@ + head + " | base: "@ + match base {
            Some(b) => b,
            None => "HEAD"@,
        },
        ReviewTarget::Local => "Mode: local | head: "@ + head,
        ReviewTarget::Repo => "Mode: repo | head: "@ + head + " | base: "@ + match base {
            Some(b) => b,
            None => "refs/remotes/"@ + remote + "/HEAD"@,
        },
        ReviewTarget::Branch(b) => "Mode: branch | head: "@ + head + " | base: "@ + b@,
        ReviewTarget::Files(f) => "Mode: files | head: "@ + head + " | files: "@ + crate::text::join_with(
            strs(f@),
            ", "@,
        ),
        ReviewTarget::PullRequest(p) => "Mode: pr | PR: "@ + p@,
    }
}

/// The one-line description of what is reviewed, given the current branch
/// (`head`) and the base the repository resolves, if any.
pub fn scope_label(target: &ReviewTarget, head: &str, base: Option<String>, git_remote: &str) -> (r: String)
    ensures
        r@ == scope_label_spec(*target, head@, opt_str(base), git_remote@),
{
    match target {
        ReviewTarget::CurrentBranchWithLocal => {
            let mut out = "Mode: branch+local | head: ".to_owned();
            push_str(&mut out, head);
            push_str(&mut out, " | base: ");
            match base {
                Some(b) => push_string(&mut out, &b),
                None => push_str(&mut out, "HEAD"),
            }
            out
        },
        ReviewTarget::Local => {
            let mut out = "Mode: local | head: ".to_owned();
            push_str(&mut out, head);
            out
        },
        ReviewTarget::Repo => {
            let mut out = "Mode: repo | head: ".to_owned();
            push_str(&mut out, head);
            push_str(&mut out, " | base: ");
            match base {
                Some(b) => push_string(&mut out, &b),
                None => {
                    push_str(&mut out, "refs/remotes/");
                    push_str(&mut out, git_remote);
                    push_str(&mut out, "/HEAD");
                },
            }
            out
        },
        ReviewTarget::Branch(b) => {
            let mut out = "Mode: branch | head: ".to_owned();
            push_str(&mut out, head);
            push_str(&mut out, " | base: ");
            push_string(&mut out, b);
            out
        },
        ReviewTarget::Files(f) => {
            let mut out = "Mode: files | head: ".to_owned();
            push_str(&mut out, head);
            push_str(&mut out, " | files: ");
            let joined = crate::report::join_strs(f, ", ");
            push_string(&mut out, &joined);
            out
        },
        ReviewTarget::PullRequest(p) => {
            let mut out = "Mode: pr | PR: ".to_owned();
            push_string(&mut out, p);
            out
        },
    }
}


/// The error a review target reports when its diff is empty (after
/// trimming), or `None` where an empty diff just means nothing to review.
pub open spec fn empty_diff_error(t: ReviewTarget, repo_base: Seq<char>) -> Option<Seq<char>> {
    match t {
        ReviewTarget::CurrentBranchWithLocal => None,
        ReviewTarget::Local => None,
        ReviewTarget::Repo => Some("no repo diff found for range "@ + repo_base + "...HEAD"@),
        ReviewTarget::Branch(b) => Some("no branch diff found for range "@ + b@ + "...HEAD"@),
        ReviewTarget::Files(_) => Some("no diff found for requested files"@),
        ReviewTarget::PullRequest(pr) => Some("no diff returned for PR "@ + pr@),
    }
}

/// What a review does with the diff it found for `target`: a diff with
/// text is reviewed; an empty one is nothing to review for local changes
/// and an error otherwise. `repo_base` is the base the `Repo` target
/// resolved.
pub fn review_diff_outcome(target: &ReviewTarget, repo_base: &str, diff: String) -> (r: Result<
    Option<String>,
    String,
>)
    ensures
        trim_of(diff@).len() > 0 ==> (r matches Ok(Some(d)) && d@ == diff@),
        trim_of(diff@).len() == 0 ==> match empty_diff_error(*target, repo_base@) {
            None => r matches Ok(None),
            Some(m) => r matches Err(e) && e@ == m,
        },
{
    let cs = chars_of(diff.as_str());
    let t = trim(cs.as_slice());
    if t.len() > 0 {
        return Ok(Some(diff));
    }
    match target {
        ReviewTarget::CurrentBranchWithLocal => Ok(None),
        ReviewTarget::Local => Ok(None),
        ReviewTarget::Repo => {
            let mut m = "no repo diff found for range ".to_owned();
            push_str(&mut m, repo_base);
            push_str(&mut m, "...HEAD");
            Err(m)
        },
        ReviewTarget::Branch(b) => {
            let mut m = "no branch diff found for range ".to_owned();
            push_string(&mut m, b);
            push_str(&mut m, "...HEAD");
            Err(m)
        },
        ReviewTarget::Files(_) => Err("no diff found for requested files".to_owned()),
        ReviewTarget::PullRequest(pr) => {
            let mut m = "no diff returned for PR ".to_owned();
            push_string(&mut m, pr);
            Err(m)
        },
    }
}

} // verus!
