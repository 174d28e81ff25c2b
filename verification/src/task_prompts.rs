//! The prompts an agent gets for a generic consensus task: the pack's
//! framing, the agent's lens, the item schema, the task context (already
//! serialized) and the pack's final schema.
use vstd::prelude::*;
use crate::cli_agent::CliAgentPlugin;
use crate::task_pack::TaskPack;
use crate::text::{decimal, push_decimal, push_str, push_string};

verus! {

/// The JSON shape of an item answer.
pub open spec fn items_schema(narrative_hint: Seq<char>) -> Seq<char> {
    "{\"narrative\":\""@ + narrative_hint
        + "\",\"items\":[{\"kind\":\"risk|decision|question|recommendation|gap\",\"importance\":\"high|medium|low\",\"title\":\"<short title>\",\"message\":\"<actionable message>\",\"confidence\":\"High|Medium|Low\",\"anchors\":[{\"attachment_id\":\"<attachment id>\",\"quote\":\"<short supporting quote>\"}]}]}"@
}

fn push_items_schema(out: &mut String, hint: &str)
    ensures
        final(out)@ == old(out)@ + items_schema(hint@),
{
    push_str(out, "{\"narrative\":\"");
    push_str(out, hint);
    push_str(
        out,
        "\",\"items\":[{\"kind\":\"risk|decision|question|recommendation|gap\",\"importance\":\"high|medium|low\",\"title\":\"<short title>\",\"message\":\"<actionable message>\",\"confidence\":\"High|Medium|Low\",\"anchors\":[{\"attachment_id\":\"<attachment id>\",\"quote\":\"<short supporting quote>\"}]}]}",
    );
}

pub open spec fn pack_lines(a: CliAgentPlugin, pack: TaskPack) -> Seq<char> {
    "Task pack: "@ + pack.manifest.title@ + " - "@ + pack.manifest.description@ + ".\n"@ + pack.reviewer_prompt@
        + "\n"@ + "Your primary lens is: "@ + a.reviewer_focus@ + ".\n"@
}

fn push_pack_lines(out: &mut String, a: &CliAgentPlugin, pack: &TaskPack)
    ensures
        final(out)@ == old(out)@ + pack_lines(*a, *pack),
{
    push_str(out, "Task pack: ");
    push_string(out, &pack.manifest.title);
    push_str(out, " - ");
    push_string(out, &pack.manifest.description);
    push_str(out, ".\n");
    push_string(out, &pack.reviewer_prompt);
    push_str(out, "\n");
    push_str(out, "Your primary lens is: ");
    push_string(out, &a.reviewer_focus);
    push_str(out, ".\n");
}

pub open spec fn task_round1_system(a: CliAgentPlugin, pack: TaskPack) -> Seq<char> {
    "You are a "@ + a.persona@ + " contributing to a multi-agent consensus task.\n"@ + pack_lines(a, pack)
        + "Respond ONLY with valid JSON matching this schema:\n"@ + items_schema("<concise summary>"@)
}

pub open spec fn task_round1_user(pack: TaskPack, context_json: Seq<char>) -> Seq<char> {
    "Round: 1\nTask context:\n"@ + context_json + "\n\nExpected final schema:\n"@ + pack.schema_json@ + "\n"@
}

pub open spec fn task_round_n_system(a: CliAgentPlugin, pack: TaskPack, round: u8) -> Seq<char> {
    "You are a "@ + a.persona@ + " contributing to round-"@ + decimal(round as nat) + " of a multi-agent consensus task.\n"@
        + pack_lines(a, pack)
        + "Explicitly agree or disagree with prior points, surface missed issues, and preserve unresolved disagreements.\n"@
        + "Respond ONLY with valid JSON matching this schema:\n"@ + items_schema("<agreement/disagreement summary>"@)
}

pub open spec fn task_round_n_user(pack: TaskPack, round: u8, prior_summary: Seq<char>, context_json: Seq<char>) -> Seq<char> {
    "Round: "@ + decimal(round as nat) + "\nPrior consensus summary:\n"@ + prior_summary + "\n\nTask context:\n"@
        + context_json + "\n\nExpected final schema:\n"@ + pack.schema_json@ + "\n"@
}

impl CliAgentPlugin {
    /// The system and user prompts of a task's first round, given the task
    /// context as JSON.
    pub fn task_prompt_round1(&self, pack: &TaskPack, context_json: &str) -> (r: (String, String))
        ensures
            r.0@ == task_round1_system(*self, *pack),
            r.1@ == task_round1_user(*pack, context_json@),
    {
        let mut system = "You are a ".to_owned();
        push_string(&mut system, &self.persona);
        push_str(&mut system, " contributing to a multi-agent consensus task.\n");
        push_pack_lines(&mut system, self, pack);
        push_str(&mut system, "Respond ONLY with valid JSON matching this schema:\n");
        push_items_schema(&mut system, "<concise summary>");
        let mut user = "Round: 1\nTask context:\n".to_owned();
        push_str(&mut user, context_json);
        push_str(&mut user, "\n\nExpected final schema:\n");
        push_string(&mut user, &pack.schema_json);
        push_str(&mut user, "\n");
        (system, user)
    }

    /// The system and user prompts of a task's later round, with the
    /// previous round's summary.
    pub fn task_prompt_round_n(&self, pack: &TaskPack, round: u8, prior_summary: &str, context_json: &str) -> (r: (
        String,
        String,
    ))
        ensures
            r.0@ == task_round_n_system(*self, *pack, round),
            r.1@ == task_round_n_user(*pack, round, prior_summary@, context_json@),
    {
        let mut system = "You are a ".to_owned();
        push_string(&mut system, &self.persona);
        push_str(&mut system, " contributing to round-");
        push_decimal(&mut system, round as u64);
        push_str(&mut system, " of a multi-agent consensus task.\n");
        push_pack_lines(&mut system, self, pack);
        push_str(
            &mut system,
            "Explicitly agree or disagree with prior points, surface missed issues, and preserve unresolved disagreements.\n",
        );
        push_str(&mut system, "Respond ONLY with valid JSON matching this schema:\n");
        push_items_schema(&mut system, "<agreement/disagreement summary>");
        let mut user = "Round: ".to_owned();
        push_decimal(&mut user, round as u64);
        push_str(&mut user, "\nPrior consensus summary:\n");
        push_str(&mut user, prior_summary);
        push_str(&mut user, "\n\nTask context:\n");
        push_str(&mut user, context_json);
        push_str(&mut user, "\n\nExpected final schema:\n");
        push_string(&mut user, &pack.schema_json);
        push_str(&mut user, "\n");
        (system, user)
    }
}

} // verus!
