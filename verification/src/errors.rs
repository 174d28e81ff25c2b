//! The messages the library's errors are reported with.
use vstd::prelude::*;
use crate::cli_args::ReviewArgsError;
use crate::github::GithubError;
use crate::plugin::{AgentsError, RegistryError};
use crate::task_pack::{attachment_kind_name, PackError};
use crate::text::{push_str, push_string};

verus! {

pub open spec fn pack_error_text(e: PackError) -> Seq<char> {
    match e {
        PackError::AttachmentKindNotAllowed { pack, kind } => "task pack '"@ + pack@
            + "' does not allow attachment kind '"@ + attachment_kind_name(kind) + "'"@,
        PackError::DuplicateRoleIds { pack } => "task pack '"@ + pack@ + "' has duplicate role ids"@,
        PackError::NoRounds { pack } => "task pack '"@ + pack@ + "' must define at least one round"@,
        PackError::EmptyRound { pack, round } => "task pack '"@ + pack@ + "' round '"@ + round@
            + "' must define at least one assignment"@,
        PackError::UnknownRoundRole { pack, round, role } => "task pack '"@ + pack@ + "' round '"@ + round@
            + "' references unknown role '"@ + role@ + "'"@,
        PackError::UnknownFinalizationRole { pack, role } => "task pack '"@ + pack@
            + "' finalization references unknown role '"@ + role@ + "'"@,
    }
}

impl PackError {
    /// The error's message.
    pub fn message(&self) -> (r: String)
        ensures
            r@ == pack_error_text(*self),
    {
        let mut s = "task pack '".to_owned();
        match self {
            PackError::AttachmentKindNotAllowed { pack, kind } => {
                push_string(&mut s, pack);
                push_str(&mut s, "' does not allow attachment kind '");
                push_str(&mut s, kind.as_str());
                push_str(&mut s, "'");
            },
            PackError::DuplicateRoleIds { pack } => {
                push_string(&mut s, pack);
                push_str(&mut s, "' has duplicate role ids");
            },
            PackError::NoRounds { pack } => {
                push_string(&mut s, pack);
                push_str(&mut s, "' must define at least one round");
            },
            PackError::EmptyRound { pack, round } => {
                push_string(&mut s, pack);
                push_str(&mut s, "' round '");
                push_string(&mut s, round);
                push_str(&mut s, "' must define at least one assignment");
            },
            PackError::UnknownRoundRole { pack, round, role } => {
                push_string(&mut s, pack);
                push_str(&mut s, "' round '");
                push_string(&mut s, round);
                push_str(&mut s, "' references unknown role '");
                push_string(&mut s, role);
                push_str(&mut s, "'");
            },
            PackError::UnknownFinalizationRole { pack, role } => {
                push_string(&mut s, pack);
                push_str(&mut s, "' finalization references unknown role '");
                push_string(&mut s, role);
                push_str(&mut s, "'");
            },
        }
        s
    }
}

pub open spec fn agents_error_text(e: AgentsError) -> Seq<char> {
    match e {
        AgentsError::NoPreferredAgent => "no available agents found on PATH from preferred pool: codex, gemini, open-code"@,
        AgentsError::NoConfiguredAgent => "no configured agents found on PATH"@,
    }
}

impl AgentsError {
    /// The error's message.
    pub fn message(&self) -> (r: &'static str)
        ensures
            r@ == agents_error_text(*self),
    {
        match self {
            AgentsError::NoPreferredAgent => "no available agents found on PATH from preferred pool: codex, gemini, open-code",
            AgentsError::NoConfiguredAgent => "no configured agents found on PATH",
        }
    }
}

pub open spec fn registry_error_text(e: RegistryError) -> Seq<char> {
    match e {
        RegistryError::Agents(a) => agents_error_text(a),
        RegistryError::NoAgentsConfigured => "no agents configured"@,
        RegistryError::NoPluginsAvailable => "no configured plugins available on PATH"@,
        RegistryError::MissingRole { pack, role } => "task pack '"@ + pack@ + "' missing role '"@ + role@ + "'"@,
        RegistryError::MissingConfig(p) => "missing config for plugin "@ + p@,
    }
}

impl RegistryError {
    /// The error's message.
    pub fn message(&self) -> (r: String)
        ensures
            r@ == registry_error_text(*self),
    {
        match self {
            RegistryError::Agents(a) => a.message().to_owned(),
            RegistryError::NoAgentsConfigured => "no agents configured".to_owned(),
            RegistryError::NoPluginsAvailable => "no configured plugins available on PATH".to_owned(),
            RegistryError::MissingRole { pack, role } => {
                let mut s = "task pack '".to_owned();
                push_string(&mut s, pack);
                push_str(&mut s, "' missing role '");
                push_string(&mut s, role);
                push_str(&mut s, "'");
                s
            },
            RegistryError::MissingConfig(p) => {
                let mut s = "missing config for plugin ".to_owned();
                push_string(&mut s, p);
                s
            },
        }
    }
}

pub open spec fn review_args_error_text(e: ReviewArgsError) -> Seq<char> {
    match e {
        ReviewArgsError::BothGithubActions => "choose only one GitHub action: --github-dry-run or --publish-github"@,
        ReviewArgsError::SeveralTargets => "choose only one target mode: <PR>, --local, --repo, --branch, or --files"@,
        ReviewArgsError::GithubNeedsPullRequest => "GitHub review actions require a PR target"@,
    }
}

impl ReviewArgsError {
    /// The error's message.
    pub fn message(&self) -> (r: &'static str)
        ensures
            r@ == review_args_error_text(*self),
    {
        match self {
            ReviewArgsError::BothGithubActions => "choose only one GitHub action: --github-dry-run or --publish-github",
            ReviewArgsError::SeveralTargets => "choose only one target mode: <PR>, --local, --repo, --branch, or --files",
            ReviewArgsError::GithubNeedsPullRequest => "GitHub review actions require a PR target",
        }
    }
}

impl GithubError {
    /// The error's message.
    pub fn message(&self) -> (r: &'static str)
        ensures
            r@ == (match self {
                GithubError::NoReviewDraft => "report did not include a PR review draft"@,
            }),
    {
        match self {
            GithubError::NoReviewDraft => "report did not include a PR review draft",
        }
    }
}

} // verus!
