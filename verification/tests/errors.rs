use libcrucible::cli_args::ReviewArgsError;
use libcrucible::github::GithubError;
use libcrucible::plugin::{AgentsError, RegistryError};
use libcrucible::task_pack::{AttachmentKind, PackError};

#[test]
fn pack_errors_name_the_pack() {
    let e = PackError::AttachmentKindNotAllowed { pack: "design-review".to_string(), kind: AttachmentKind::SourceFile };
    assert_eq!(e.message(), "task pack 'design-review' does not allow attachment kind 'source_file'");
    let e = PackError::UnknownRoundRole { pack: "p".to_string(), round: "r1".to_string(), role: "x".to_string() };
    assert_eq!(e.message(), "task pack 'p' round 'r1' references unknown role 'x'");
    assert_eq!(PackError::NoRounds { pack: "p".to_string() }.message(), "task pack 'p' must define at least one round");
}

#[test]
fn registry_and_argument_errors() {
    assert_eq!(RegistryError::Agents(AgentsError::NoConfiguredAgent).message(), "no configured agents found on PATH");
    assert_eq!(
        RegistryError::MissingRole { pack: "review".to_string(), role: "judge".to_string() }.message(),
        "task pack 'review' missing role 'judge'"
    );
    assert_eq!(RegistryError::MissingConfig("codex".to_string()).message(), "missing config for plugin codex");
    assert_eq!(ReviewArgsError::GithubNeedsPullRequest.message(), "GitHub review actions require a PR target");
    assert_eq!(GithubError::NoReviewDraft.message(), "report did not include a PR review draft");
}
