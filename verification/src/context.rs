//! The context gathered around a change: references, history, docs and
//! precheck signals.
use vstd::prelude::*;
use crate::analysis::{opt_focus, AgentContext, FocusAreas};
use crate::reference::{Reference, ReferenceModel, reference_models, clone_references};
use crate::report::{clone_opt_str, clone_strs, opt_str, strs};

verus! {

/// A commit that touched a changed file; its date is in seconds since the
/// Unix epoch.
#[derive(Clone, Debug)]
pub struct CommitSummary {
    pub sha: String,
    pub message: String,
    pub author: String,
    pub date_secs: i64,
}

/// A documentation file and its (possibly truncated) contents.
#[derive(Clone, Debug)]
pub struct DocSnippet {
    pub path: String,
    pub contents: String,
}

#[derive(Clone, Copy, Debug, PartialEq, Eq, Structural)]
pub enum PrecheckStatus {
    Pass,
    Warn,
    Fail,
    Skipped,
}

/// The outcome of one deterministic check run before the agents.
#[derive(Clone, Debug)]
pub struct PrecheckSignal {
    pub tool: String,
    pub status: PrecheckStatus,
    pub summary: String,
    pub command: String,
}

pub type CommitModel = (Seq<char>, Seq<char>, Seq<char>, i64);

pub type DocModel = (Seq<char>, Seq<char>);

pub type SignalModel = (Seq<char>, PrecheckStatus, Seq<char>, Seq<char>);

pub open spec fn commit_models(v: Seq<CommitSummary>) -> Seq<CommitModel> {
    v.map_values(|c: CommitSummary| (c.sha@, c.message@, c.author@, c.date_secs))
}

pub open spec fn doc_models(v: Seq<DocSnippet>) -> Seq<DocModel> {
    v.map_values(|d: DocSnippet| (d.path@, d.contents@))
}

pub open spec fn signal_models(v: Seq<PrecheckSignal>) -> Seq<SignalModel> {
    v.map_values(|p: PrecheckSignal| (p.tool@, p.status, p.summary@, p.command@))
}

/// References, history, docs and prechecks gathered for a change.
#[derive(Clone, Debug)]
pub struct GatheredContext {
    pub references: Vec<Reference>,
    pub history: Vec<CommitSummary>,
    pub docs: Vec<DocSnippet>,
    pub prechecks: Vec<PrecheckSignal>,
}

pub struct GatheredModel {
    pub references: Seq<ReferenceModel>,
    pub history: Seq<CommitModel>,
    pub docs: Seq<DocModel>,
    pub prechecks: Seq<SignalModel>,
}

impl View for GatheredContext {
    type V = GatheredModel;

    open spec fn view(&self) -> GatheredModel {
        GatheredModel {
            references: reference_models(self.references@),
            history: commit_models(self.history@),
            docs: doc_models(self.docs@),
            prechecks: signal_models(self.prechecks@),
        }
    }
}

impl GatheredContext {
    pub fn new() -> (r: Self)
        ensures
            r@.references.len() == 0,
            r@.history.len() == 0,
            r@.docs.len() == 0,
            r@.prechecks.len() == 0,
    {
        GatheredContext { references: Vec::new(), history: Vec::new(), docs: Vec::new(), prechecks: Vec::new() }
    }

    pub fn duplicate(&self) -> (r: Self)
        ensures
            r@ == self@,
    {
        let mut history: Vec<CommitSummary> = Vec::new();
        let mut i: usize = 0;
        while i < self.history.len()
            invariant
                i <= self.history@.len(),
                history@.len() == i,
                forall|k: int| 0 <= k < i ==> (#[trigger] history@[k]).sha@ == self.history@[k].sha@
                    && history@[k].message@ == self.history@[k].message@
                    && history@[k].author@ == self.history@[k].author@
                    && history@[k].date_secs == self.history@[k].date_secs,
            decreases self.history.len() - i,
        {
            let c = &self.history[i];
            history.push(CommitSummary {
                sha: c.sha.clone(),
                message: c.message.clone(),
                author: c.author.clone(),
                date_secs: c.date_secs,
            });
            i += 1;
        }
        let mut docs: Vec<DocSnippet> = Vec::new();
        let mut j: usize = 0;
        while j < self.docs.len()
            invariant
                j <= self.docs@.len(),
                docs@.len() == j,
                forall|k: int| 0 <= k < j ==> (#[trigger] docs@[k]).path@ == self.docs@[k].path@
                    && docs@[k].contents@ == self.docs@[k].contents@,
            decreases self.docs.len() - j,
        {
            docs.push(DocSnippet { path: self.docs[j].path.clone(), contents: self.docs[j].contents.clone() });
            j += 1;
        }
        let mut prechecks: Vec<PrecheckSignal> = Vec::new();
        let mut k: usize = 0;
        while k < self.prechecks.len()
            invariant
                k <= self.prechecks@.len(),
                prechecks@.len() == k,
                forall|q: int| 0 <= q < k ==> (#[trigger] prechecks@[q]).tool@ == self.prechecks@[q].tool@
                    && prechecks@[q].status == self.prechecks@[q].status
                    && prechecks@[q].summary@ == self.prechecks@[q].summary@
                    && prechecks@[q].command@ == self.prechecks@[q].command@,
            decreases self.prechecks.len() - k,
        {
            let p = &self.prechecks[k];
            prechecks.push(PrecheckSignal {
                tool: p.tool.clone(),
                status: p.status,
                summary: p.summary.clone(),
                command: p.command.clone(),
            });
            k += 1;
        }
        let r = GatheredContext { references: clone_references(&self.references), history, docs, prechecks };
        assert(commit_models(r.history@) =~= commit_models(self.history@));
        assert(doc_models(r.docs@) =~= doc_models(self.docs@));
        assert(signal_models(r.prechecks@) =~= signal_models(self.prechecks@));
        r
    }
}

/// Documentation files matching glob patterns, each read up to a byte limit.
pub struct DocsCollector {
    patterns: Vec<String>,
    max_bytes: usize,
}

impl DocsCollector {
    pub fn new(patterns: Vec<String>, max_bytes: usize) -> (r: Self)
        ensures
            strs(r.patterns()@) == strs(patterns@),
            r.max_bytes() == max_bytes,
    {
        DocsCollector { patterns, max_bytes }
    }

    #[verifier::when_used_as_spec(spec_patterns)]
    pub fn patterns(&self) -> (r: &Vec<String>)
        ensures
            r == self.spec_patterns(),
    {
        &self.patterns
    }

    pub closed spec fn spec_patterns(&self) -> &Vec<String> {
        &self.patterns
    }

    #[verifier::when_used_as_spec(spec_max_bytes)]
    pub fn max_bytes(&self) -> (r: usize)
        ensures
            r == self.spec_max_bytes(),
    {
        self.max_bytes
    }

    pub closed spec fn spec_max_bytes(&self) -> usize {
        self.max_bytes
    }
}

/// Recent commits that touched the changed files, within a count and an age.
pub struct HistoryCollector {
    max_commits: usize,
    max_days: u32,
}

impl HistoryCollector {
    pub fn new(max_commits: usize, max_days: u32) -> (r: Self)
        ensures
            r.max_commits() == max_commits,
            r.max_days() == max_days,
    {
        HistoryCollector { max_commits, max_days }
    }

    #[verifier::when_used_as_spec(spec_max_commits)]
    pub fn max_commits(&self) -> (r: usize)
        ensures
            r == self.spec_max_commits(),
    {
        self.max_commits
    }

    pub closed spec fn spec_max_commits(&self) -> usize {
        self.max_commits
    }

    #[verifier::when_used_as_spec(spec_max_days)]
    pub fn max_days(&self) -> (r: u32)
        ensures
            r == self.spec_max_days(),
    {
        self.max_days
    }

    pub closed spec fn spec_max_days(&self) -> u32 {
        self.max_days
    }
}

/// A change to review: its diff, the files it touches, the refs it spans,
/// the repository root, and what was gathered around it.
#[derive(Clone, Debug)]
pub struct ReviewContext {
    pub diff: String,
    pub changed_files: Vec<String>,
    pub base_ref: String,
    pub head_ref: String,
    pub repo_root: String,
    pub gathered: GatheredContext,
    pub dep_graph: Option<String>,
}

impl ReviewContext {
    /// The agent context for this change, with the given focus and no task pack.
    pub fn into_agent_ctx(&self, focus: Option<&FocusAreas>) -> (r: AgentContext)
        ensures
            r.diff@ == self.diff@,
            r.gathered@ == self.gathered@,
            opt_focus(r.focus) == match focus {
                Some(f) => Some(f@),
                None => None,
            },
            opt_str(r.dep_graph) == opt_str(self.dep_graph),
            r.review_pack is None,
    {
        AgentContext {
            diff: self.diff.clone(),
            gathered: self.gathered.duplicate(),
            focus: match focus {
                Some(f) => Some(f.duplicate()),
                None => None,
            },
            dep_graph: clone_opt_str(&self.dep_graph),
            review_pack: None,
        }
    }
}

} // verus!
