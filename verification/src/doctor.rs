//! The health report of an installation: configuration, agent resolution,
//! the execution plan of the review pack, and per-agent probes.
use vstd::prelude::*;
use crate::report::{clone_strs, strs};
use crate::errors::registry_error_text;
use crate::plan::{ResolvedRoleAssignment, ResolvedRoundPlan, ResolvedTaskPlan};
use crate::plugin::{PluginRegistry, RegistryError};
use crate::text::{chars_of, has_prefix, push_str, push_string, slice_range, starts_with, str_eq, string_of};

verus! {

#[derive(Clone, Debug)]
pub struct AgentResolutionReport {
    pub ok: bool,
    pub active: Vec<String>,
    pub standby: Vec<String>,
    pub error: Option<String>,
}

#[derive(Clone, Debug)]
pub struct ExecutionPlanReport {
    pub ok: bool,
    pub pack_id: String,
    pub rounds: Vec<String>,
    pub roles: Vec<(String, String)>,
    pub error: Option<String>,
}

/// One agent probe: reachable, answering with JSON, and with a valid answer.
#[derive(Clone, Debug)]
pub struct HealthCheckResult {
    pub agent_id: String,
    pub reachable: bool,
    pub json_parsable: bool,
    pub valid_response: bool,
    pub error: Option<String>,
}

#[derive(Clone, Debug)]
pub struct DoctorReport {
    pub config_ok: bool,
    pub config_path: Option<String>,
    pub config_error: Option<String>,
    pub configured_agents: Vec<String>,
    pub agent_resolution: AgentResolutionReport,
    pub execution_plan: ExecutionPlanReport,
    pub agent_checks: Vec<HealthCheckResult>,
}

/// The agent name of a probe id: without its `doctor@` prefix.
pub open spec fn probe_name(id: Seq<char>) -> Seq<char> {
    if starts_with(id, "doctor@"@) {
        id.subrange(7, id.len() as int)
    } else {
        id
    }
}

/// A probe's tag: whether its agent is active, on standby, or not found.
pub open spec fn probe_tag(name: Seq<char>, active: Seq<Seq<char>>, standby: Seq<Seq<char>>) -> Seq<char> {
    if active.contains(name) {
        "active"@
    } else if standby.contains(name) {
        "standby"@
    } else {
        "not on PATH"@
    }
}

pub open spec fn opt_or(o: Option<String>, d: Seq<char>) -> Seq<char> {
    match o {
        Some(s) => s@,
        None => d,
    }
}

/// The line for one probe, and whether it fails the report (an unreachable
/// agent fails it; a reachable one with a bad answer only warns).
pub open spec fn probe_line_spec(c: HealthCheckResult, active: Seq<Seq<char>>, standby: Seq<Seq<char>>) -> (Seq<char>, bool) {
    let name = probe_name(c.agent_id@);
    let head = "  "@ + name + " ("@ + probe_tag(name, active, standby) + ")"@;
    if c.reachable && c.json_parsable && c.valid_response {
        (head + ": OK"@, false)
    } else if c.reachable {
        (head + ": WARN  reachable but response parse failed ("@ + opt_or(c.error, "unexpected output"@) + ")"@, false)
    } else {
        (head + ": FAIL  not reachable - "@ + opt_or(c.error, "binary not found"@), true)
    }
}

fn contains_str(v: &Vec<String>, x: &[char]) -> (r: bool)
    ensures
        r == strs(v@).contains(x@),
{
    let mut i: usize = 0;
    while i < v.len()
        invariant
            i <= v@.len(),
            forall|k: int| 0 <= k < i ==> strs(v@)[k] != x@,
        decreases v.len() - i,
    {
        let c = chars_of(v[i].as_str());
        if crate::text::chars_eq(c.as_slice(), x) {
            assert(strs(v@)[i as int] == x@);
            return true;
        }
        i += 1;
    }
    false
}

pub fn probe_line(c: &HealthCheckResult, active: &Vec<String>, standby: &Vec<String>) -> (r: (String, bool))
    ensures
        (r.0@, r.1) == probe_line_spec(*c, strs(active@), strs(standby@)),
{
    let id = chars_of(c.agent_id.as_str());
    let prefix = chars_of("doctor@");
    proof {
        reveal_strlit("doctor@");
    }
    let name: Vec<char> = if has_prefix(id.as_slice(), prefix.as_slice()) {
        slice_range(id.as_slice(), 7, id.len())
    } else {
        id
    };
    let tag = if contains_str(active, name.as_slice()) {
        "active"
    } else if contains_str(standby, name.as_slice()) {
        "standby"
    } else {
        "not on PATH"
    };
    let mut out = String::new();
    push_str(&mut out, "  ");
    let ns = string_of(name.as_slice());
    push_string(&mut out, &ns);
    push_str(&mut out, " (");
    push_str(&mut out, tag);
    push_str(&mut out, ")");
    if c.reachable && c.json_parsable && c.valid_response {
        push_str(&mut out, ": OK");
        (out, false)
    } else if c.reachable {
        push_str(&mut out, ": WARN  reachable but response parse failed (");
        match &c.error {
            Some(e) => push_string(&mut out, e),
            None => push_str(&mut out, "unexpected output"),
        }
        push_str(&mut out, ")");
        (out, false)
    } else {
        push_str(&mut out, ": FAIL  not reachable - ");
        match &c.error {
            Some(e) => push_string(&mut out, e),
            None => push_str(&mut out, "binary not found"),
        }
        (out, true)
    }
}


pub open spec fn opt_text(o: Option<String>) -> Option<Seq<char>> {
    match o {
        Some(s) => Some(s@),
        None => None,
    }
}

/// The agent resolution of a health report: the registry's active and
/// standby agents, else the reason there is none (the configuration was not
/// loaded, or the registry's error).
pub open spec fn resolution_spec(registry: Option<Result<PluginRegistry, RegistryError>>, r: AgentResolutionReport) -> bool {
    match registry {
        Some(Ok(reg)) => r.ok && strs(r.active@) == strs(reg.active_plugin_ids@) && strs(r.standby@) == strs(
            reg.standby_plugin_ids@,
        ) && r.error is None,
        Some(Err(e)) => !r.ok && r.active@.len() == 0 && r.standby@.len() == 0 && opt_text(r.error) == Some(
            registry_error_text(e),
        ),
        None => !r.ok && r.active@.len() == 0 && r.standby@.len() == 0 && opt_text(r.error) == Some("config not loaded"@),
    }
}

pub fn agent_resolution_report(registry: &Option<Result<PluginRegistry, RegistryError>>) -> (r: AgentResolutionReport)
    ensures
        resolution_spec(*registry, r),
{
    match registry {
        Some(Ok(reg)) => AgentResolutionReport {
            ok: true,
            active: clone_strs(&reg.active_plugin_ids),
            standby: clone_strs(&reg.standby_plugin_ids),
            error: None,
        },
        Some(Err(e)) => AgentResolutionReport { ok: false, active: Vec::new(), standby: Vec::new(), error: Some(e.message()) },
        None => AgentResolutionReport {
            ok: false,
            active: Vec::new(),
            standby: Vec::new(),
            error: Some("config not loaded".to_owned()),
        },
    }
}

/// The rounds' names of a plan, in order.
pub open spec fn round_names(rounds: Seq<ResolvedRoundPlan>) -> Seq<Seq<char>> {
    rounds.map_values(|r: ResolvedRoundPlan| r.name@)
}

/// The (role, agent) pairs of the first `i` rounds of a plan, round by round.
pub open spec fn plan_roles(rounds: Seq<ResolvedRoundPlan>, i: int) -> Seq<(Seq<char>, Seq<char>)>
    decreases i,
{
    if i <= 0 {
        seq![]
    } else {
        plan_roles(rounds, i - 1) + rounds[i - 1].assignments@.map_values(
            |a: ResolvedRoleAssignment| (a.role.id@, a.plugin_id@),
        )
    }
}

pub open spec fn pair_models(v: Seq<(String, String)>) -> Seq<(Seq<char>, Seq<char>)> {
    v.map_values(|p: (String, String)| (p.0@, p.1@))
}

/// The execution plan of a health report: the pack's rounds and every
/// (role, agent) assignment when the plan was built, else its error.
pub fn execution_plan_report(pack_id: &str, plan: &Result<ResolvedTaskPlan, String>) -> (r: ExecutionPlanReport)
    ensures
        r.pack_id@ == pack_id@,
        match plan {
            Ok(p) => r.ok && strs(r.rounds@) == round_names(p.rounds@) && pair_models(r.roles@) == plan_roles(
                p.rounds@,
                p.rounds@.len() as int,
            ) && r.error is None,
            Err(e) => !r.ok && r.rounds@.len() == 0 && r.roles@.len() == 0 && opt_text(r.error) == Some(e@),
        },
{
    match plan {
        Err(e) => ExecutionPlanReport {
            ok: false,
            pack_id: pack_id.to_owned(),
            rounds: Vec::new(),
            roles: Vec::new(),
            error: Some(e.clone()),
        },
        Ok(p) => {
            let mut rounds: Vec<String> = Vec::new();
            let mut roles: Vec<(String, String)> = Vec::new();
            let mut i: usize = 0;
            while i < p.rounds.len()
                invariant
                    i <= p.rounds@.len(),
                    strs(rounds@) == round_names(p.rounds@).take(i as int),
                    pair_models(roles@) == plan_roles(p.rounds@, i as int),
                decreases p.rounds.len() - i,
            {
                let rd = &p.rounds[i];
                let ghost before = pair_models(roles@);
                let mut j: usize = 0;
                while j < rd.assignments.len()
                    invariant
                        j <= rd.assignments@.len(),
                        pair_models(roles@) == before + rd.assignments@.take(j as int).map_values(
                            |a: ResolvedRoleAssignment| (a.role.id@, a.plugin_id@),
                        ),
                    decreases rd.assignments.len() - j,
                {
                    let a = &rd.assignments[j];
                    let ghost m = rd.assignments@.take(j as int).map_values(|a: ResolvedRoleAssignment| (a.role.id@, a.plugin_id@));
                    let ghost prev = pair_models(roles@);
                    let role_id = a.role.id.clone();
                    let plugin_id = a.plugin_id.clone();
                    roles.push((role_id, plugin_id));
                    assert(rd.assignments@.take(j + 1) =~= rd.assignments@.take(j as int).push(*a));
                    assert(rd.assignments@.take(j + 1).map_values(|a: ResolvedRoleAssignment| (a.role.id@, a.plugin_id@))
                        =~= m.push((a.role.id@, a.plugin_id@)));
                    assert(pair_models(roles@) =~= prev.push((a.role.id@, a.plugin_id@)));
                    assert(pair_models(roles@) =~= before + rd.assignments@.take(j + 1).map_values(
                        |a: ResolvedRoleAssignment| (a.role.id@, a.plugin_id@),
                    ));
                    j += 1;
                }
                assert(rd.assignments@.take(rd.assignments@.len() as int) =~= rd.assignments@);
                let ghost before_names = strs(rounds@);
                rounds.push(rd.name.clone());
                assert(strs(rounds@) =~= before_names.push(rd.name@));
                assert(round_names(p.rounds@).take(i + 1) =~= round_names(p.rounds@).take(i as int).push(rd.name@));
                i += 1;
            }
            assert(round_names(p.rounds@).take(p.rounds@.len() as int) =~= round_names(p.rounds@));
            ExecutionPlanReport { ok: true, pack_id: pack_id.to_owned(), rounds, roles, error: None }
        },
    }
}

/// A plan that could not be looked at, for the given reason.
pub fn plan_unavailable(pack_id: &str, reason: &str) -> (r: ExecutionPlanReport)
    ensures
        !r.ok && r.pack_id@ == pack_id@ && r.rounds@.len() == 0 && r.roles@.len() == 0 && opt_text(r.error) == Some(
            reason@,
        ),
{
    ExecutionPlanReport {
        ok: false,
        pack_id: pack_id.to_owned(),
        rounds: Vec::new(),
        roles: Vec::new(),
        error: Some(reason.to_owned()),
    }
}

} // verus!
