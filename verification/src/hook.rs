//! The managed pre-push hook: its script, how an existing hook is told
//! apart from a managed one, and what installing, removing and reporting
//! decide once the files have been read.
use vstd::prelude::*;
use crate::text::{chars_of, contains_exec, contains_seq, push_str};

verus! {

/// The first comment line that marks a hook as managed.
pub open spec fn header_spec() -> Seq<char> {
    "# Managed by Crucible — do not edit manually (crucible hook uninstall to remove)"@
}

pub fn hook_header() -> (r: &'static str)
    ensures
        r@ == header_spec(),
{
    "# Managed by Crucible — do not edit manually (crucible hook uninstall to remove)"
}

/// The script the hook runs: the managed recipe, failing on any error.
pub open spec fn hook_script_spec() -> Seq<char> {
    "#!/usr/bin/env bash\n"@ + header_spec() + "\nset -euo pipefail\nexec just crucible-pre-push\n"@
}

pub fn hook_script() -> (r: String)
    ensures
        r@ == hook_script_spec(),
{
    let mut s = "#!/usr/bin/env bash\n".to_owned();
    push_str(&mut s, hook_header());
    push_str(&mut s, "\nset -euo pipefail\nexec just crucible-pre-push\n");
    s
}

/// A hook file is managed when it holds the header anywhere.
pub fn is_managed(content: &str) -> (r: bool)
    ensures
        r == contains_seq(content@, header_spec()),
{
    let c = chars_of(content);
    let h = chars_of(hook_header());
    contains_exec(c.as_slice(), h.as_slice())
}

/// Why the hook cannot be installed.
#[derive(Clone, Copy, Debug, PartialEq, Eq, Structural)]
pub enum HookError {
    /// `just` is not on the PATH.
    JustMissing,
    /// The working directory has no Justfile.
    JustfileMissing,
    /// A hook that is not managed exists and `--force` was not given.
    ForeignHookExists,
}

impl HookError {
    pub open spec fn message_spec(self) -> Seq<char> {
        match self {
            HookError::JustMissing => "`just` is required for the managed pre-push hook"@,
            HookError::JustfileMissing => "managed hook expects a Justfile with a `crucible-pre-push` recipe"@,
            HookError::ForeignHookExists => "pre-push hook exists; use --force to overwrite"@,
        }
    }

    /// The error's message.
    pub fn message(&self) -> (r: &'static str)
        ensures
            r@ == self.message_spec(),
    {
        match self {
            HookError::JustMissing => "`just` is required for the managed pre-push hook",
            HookError::JustfileMissing => "managed hook expects a Justfile with a `crucible-pre-push` recipe",
            HookError::ForeignHookExists => "pre-push hook exists; use --force to overwrite",
        }
    }
}

/// Whether installing may go on: `just` must be on the PATH, a Justfile
/// must be present, and an existing hook (its text, or `None` when there
/// is none) is replaced only if it is managed or `force` is set.
pub fn install_check(just_on_path: bool, has_justfile: bool, existing: Option<&str>, force: bool) -> (r: Result<
    (),
    HookError,
>)
    ensures
        !just_on_path ==> r == Err::<(), HookError>(HookError::JustMissing),
        just_on_path && !has_justfile ==> r == Err::<(), HookError>(HookError::JustfileMissing),
        just_on_path && has_justfile ==> (r == Err::<(), HookError>(HookError::ForeignHookExists) <==> (
        existing matches Some(e) && !contains_seq(e@, header_spec()) && !force)),
        just_on_path && has_justfile ==> (r is Ok <==> !(existing matches Some(e) && !contains_seq(
            e@,
            header_spec(),
        ) && !force)),
{
    if !just_on_path {
        return Err(HookError::JustMissing);
    }
    if !has_justfile {
        return Err(HookError::JustfileMissing);
    }
    match existing {
        Some(e) => {
            if !is_managed(e) && !force {
                return Err(HookError::ForeignHookExists);
            }
            Ok(())
        },
        None => Ok(()),
    }
}

/// What removing the hook does.
#[derive(Clone, Copy, Debug, PartialEq, Eq, Structural)]
pub enum HookRemoval {
    /// There is no hook.
    NotInstalled,
    /// The hook is not managed and is left alone.
    NotManaged,
    /// The managed hook is removed.
    Remove,
}

impl HookRemoval {
    pub open spec fn message_spec(self) -> Seq<char> {
        match self {
            HookRemoval::NotInstalled => "No pre-push hook installed"@,
            HookRemoval::NotManaged => "pre-push hook not managed by Crucible; not removing"@,
            HookRemoval::Remove => "Removed pre-push hook"@,
        }
    }

    /// The line printed for this outcome.
    pub fn message(&self) -> (r: &'static str)
        ensures
            r@ == self.message_spec(),
    {
        match self {
            HookRemoval::NotInstalled => "No pre-push hook installed",
            HookRemoval::NotManaged => "pre-push hook not managed by Crucible; not removing",
            HookRemoval::Remove => "Removed pre-push hook",
        }
    }
}

/// Only a managed hook is removed.
pub fn uninstall_action(existing: Option<&str>) -> (r: HookRemoval)
    ensures
        existing is None ==> r == HookRemoval::NotInstalled,
        existing matches Some(e) ==> r == (if contains_seq(e@, header_spec()) {
            HookRemoval::Remove
        } else {
            HookRemoval::NotManaged
        }),
{
    match existing {
        None => HookRemoval::NotInstalled,
        Some(e) => if is_managed(e) {
            HookRemoval::Remove
        } else {
            HookRemoval::NotManaged
        },
    }
}

pub open spec fn yes_no(b: bool) -> Seq<char> {
    if b {
        "yes"@
    } else {
        "no"@
    }
}

fn push_yes_no(out: &mut String, b: bool)
    ensures
        final(out)@ == old(out)@ + yes_no(b),
{
    if b {
        push_str(out, "yes");
    } else {
        push_str(out, "no");
    }
}

pub open spec fn status_spec(installed: bool, on_path: bool, just_on_path: bool, has_recipe: bool) -> Seq<char> {
    "Hook installed: "@ + yes_no(installed) + "\ncrucible on PATH: "@ + yes_no(on_path) + "\njust on PATH: "@
        + yes_no(just_on_path) + "\ncrucible-pre-push recipe available: "@ + yes_no(has_recipe) + "\n"@
}

/// The status report: one yes/no line each for the managed hook, the
/// `crucible` and `just` programs, and the Justfile recipe.
pub fn status_report(installed: bool, on_path: bool, just_on_path: bool, has_recipe: bool) -> (r: String)
    ensures
        r@ == status_spec(installed, on_path, just_on_path, has_recipe),
{
    let mut s = "Hook installed: ".to_owned();
    push_yes_no(&mut s, installed);
    push_str(&mut s, "\ncrucible on PATH: ");
    push_yes_no(&mut s, on_path);
    push_str(&mut s, "\njust on PATH: ");
    push_yes_no(&mut s, just_on_path);
    push_str(&mut s, "\ncrucible-pre-push recipe available: ");
    push_yes_no(&mut s, has_recipe);
    push_str(&mut s, "\n");
    s
}

/// A freshly written hook is managed, so installing again needs no force
/// and removing it removes it.
pub proof fn law_written_hook_is_managed()
    ensures
        contains_seq(hook_script_spec(), header_spec()),
{
    let s = hook_script_spec();
    let p = "#!/usr/bin/env bash\n"@;
    assert(s.subrange(p.len() as int, p.len() + header_spec().len() as int) =~= header_spec());
    assert(crate::text::occurs_at(s, header_spec(), p.len() as int));
}

} // verus!
