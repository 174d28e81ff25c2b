//! The execution plan of a task pack: every assignment of every round, and
//! each finalization step, resolved to a role of the pack and an active
//! agent, with the agents of one round kept apart where possible.
use vstd::prelude::*;
use crate::cli_agent::CliAgentPlugin;
use crate::plugin::{assign_spec, law_assignment_active, PluginRegistry, RegistryError};
use crate::report::strs;
use crate::task_pack::{RoundMode, TaskAssignment, TaskPack, TaskPackRole, TaskRound};
use crate::text::{push_str, push_string, str_eq};

verus! {

/// A role's fields as plain values.
pub type RoleModel = (Seq<char>, Seq<char>, Seq<char>, Seq<char>, crate::task_pack::PromptTemplate, u32);

pub open spec fn role_model(r: TaskPackRole) -> RoleModel {
    (r.id@, r.name@, r.persona@, r.focus@, r.prompt_template, r.default_weight_permille)
}

fn duplicate_role(r: &TaskPackRole) -> (c: TaskPackRole)
    ensures
        role_model(c) == role_model(*r),
{
    TaskPackRole {
        id: r.id.clone(),
        name: r.name.clone(),
        persona: r.persona.clone(),
        focus: r.focus.clone(),
        prompt_template: r.prompt_template,
        default_weight_permille: r.default_weight_permille,
    }
}

/// A role bound to an agent: its runtime id is `role@agent`, its weight is
/// held in thousandths.
#[derive(Clone, Debug)]
pub struct ResolvedRoleAssignment {
    pub runtime_id: String,
    pub plugin_id: String,
    pub role: TaskPackRole,
    pub weight_permille: u32,
}

pub open spec fn weight_of(role: TaskPackRole, weight_override: Option<u32>) -> u32 {
    match weight_override {
        Some(w) => w,
        None => role.default_weight_permille,
    }
}

impl ResolvedRoleAssignment {
    pub fn new(role: TaskPackRole, plugin_id: &str, weight_override_permille: Option<u32>) -> (r: Self)
        ensures
            r.runtime_id@ == role.id@ + "@"@ + plugin_id@,
            r.plugin_id@ == plugin_id@,
            r.weight_permille == weight_of(role, weight_override_permille),
            role_model(r.role) == role_model(role),
    {
        let mut runtime_id = role.id.clone();
        push_str(&mut runtime_id, "@");
        push_str(&mut runtime_id, plugin_id);
        let weight_permille = match weight_override_permille {
            Some(w) => w,
            None => role.default_weight_permille,
        };
        ResolvedRoleAssignment { runtime_id, plugin_id: plugin_id.to_owned(), role, weight_permille }
    }
}

#[derive(Clone, Debug)]
pub struct ResolvedRoundPlan {
    pub name: String,
    pub mode: RoundMode,
    pub assignments: Vec<ResolvedRoleAssignment>,
}

#[derive(Clone, Debug)]
pub struct ResolvedFinalizationPlan {
    pub analyze: Option<ResolvedRoleAssignment>,
    pub judge: ResolvedRoleAssignment,
    pub convergence: Option<ResolvedRoleAssignment>,
    pub structurizer: Option<ResolvedRoleAssignment>,
    pub autofix: Option<ResolvedRoleAssignment>,
}

#[derive(Clone, Debug)]
pub struct ResolvedTaskPlan {
    pub rounds: Vec<ResolvedRoundPlan>,
    pub finalization: ResolvedFinalizationPlan,
}

/// Why an assignment cannot be resolved.
pub enum PlanFault {
    /// The pack has no role of this id.
    MissingRole(Seq<char>),
    /// No agent is active.
    NoPlugins,
}

/// The first role of `id` at or after `i`.
pub open spec fn role_pos(roles: Seq<TaskPackRole>, id: Seq<char>, i: int) -> Option<int>
    decreases roles.len() - i,
{
    if i < 0 || i >= roles.len() {
        None
    } else if roles[i].id@ == id {
        Some(i)
    } else {
        role_pos(roles, id, i + 1)
    }
}

/// A resolved assignment as plain values: the index of its role in the
/// pack, its agent, and its weight.
pub type Planned = (int, Seq<char>, u32);

pub open spec fn resolve_spec(roles: Seq<TaskPackRole>, active: Seq<Seq<char>>, a: TaskAssignment, used: Seq<Seq<char>>) -> Result<Planned, PlanFault> {
    match role_pos(roles, a.role@, 0) {
        None => Err(PlanFault::MissingRole(a.role@)),
        Some(k) => match assign_spec(active, a.plugin@, used) {
            None => Err(PlanFault::NoPlugins),
            Some(p) => Ok((k, p, weight_of(roles[k], a.weight_override_permille))),
        },
    }
}

pub open spec fn planned_agents(ps: Seq<Planned>) -> Seq<Seq<char>> {
    ps.map_values(|p: Planned| p.1)
}

/// A round's assignments in order, each avoiding the agents of those before
/// it; the first failure ends the round.
pub open spec fn round_spec(roles: Seq<TaskPackRole>, active: Seq<Seq<char>>, asg: Seq<TaskAssignment>) -> Result<Seq<Planned>, PlanFault>
    decreases asg.len(),
{
    if asg.len() == 0 {
        Ok(seq![])
    } else {
        match round_spec(roles, active, asg.drop_last()) {
            Err(e) => Err(e),
            Ok(prev) => match resolve_spec(roles, active, asg.last(), planned_agents(prev)) {
                Err(e) => Err(e),
                Ok(p) => Ok(prev.push(p)),
            },
        }
    }
}

pub open spec fn rounds_spec(roles: Seq<TaskPackRole>, active: Seq<Seq<char>>, rounds: Seq<TaskRound>) -> Result<Seq<Seq<Planned>>, PlanFault>
    decreases rounds.len(),
{
    if rounds.len() == 0 {
        Ok(seq![])
    } else {
        match rounds_spec(roles, active, rounds.drop_last()) {
            Err(e) => Err(e),
            Ok(prev) => match round_spec(roles, active, rounds.last().assignments@) {
                Err(e) => Err(e),
                Ok(r) => Ok(prev.push(r)),
            },
        }
    }
}

pub open spec fn optional_spec(roles: Seq<TaskPackRole>, active: Seq<Seq<char>>, a: Option<TaskAssignment>) -> Result<Option<Planned>, PlanFault> {
    match a {
        None => Ok(None),
        Some(x) => match resolve_spec(roles, active, x, seq![]) {
            Err(e) => Err(e),
            Ok(p) => Ok(Some(p)),
        },
    }
}

pub type FinalPlanned = (Option<Planned>, Planned, Option<Planned>, Option<Planned>, Option<Planned>);

/// The whole plan: the rounds in order, then analyze, judge, convergence,
/// structurizer and autofix; the first failure is the plan's.
pub open spec fn plan_spec(pack: TaskPack, active: Seq<Seq<char>>) -> Result<(Seq<Seq<Planned>>, FinalPlanned), PlanFault> {
    let roles = pack.manifest.roles@;
    let f = pack.manifest.finalization;
    match rounds_spec(roles, active, pack.manifest.rounds@) {
        Err(e) => Err(e),
        Ok(rs) => match optional_spec(roles, active, f.analyze) {
            Err(e) => Err(e),
            Ok(an) => match resolve_spec(roles, active, f.judge, seq![]) {
                Err(e) => Err(e),
                Ok(j) => match optional_spec(roles, active, f.convergence) {
                    Err(e) => Err(e),
                    Ok(c) => match optional_spec(roles, active, f.structurizer) {
                        Err(e) => Err(e),
                        Ok(s) => match optional_spec(roles, active, f.autofix) {
                            Err(e) => Err(e),
                            Ok(x) => Ok((rs, (an, j, c, s, x))),
                        },
                    },
                },
            },
        },
    }
}

/// A resolved assignment is the one planned: the planned role, agent and
/// weight, and the runtime id `role@agent`.
pub open spec fn matches_planned(r: ResolvedRoleAssignment, roles: Seq<TaskPackRole>, p: Planned) -> bool {
    &&& 0 <= p.0 < roles.len()
    &&& role_model(r.role) == role_model(roles[p.0])
    &&& r.plugin_id@ == p.1
    &&& r.weight_permille == p.2
    &&& r.runtime_id@ == roles[p.0].id@ + "@"@ + p.1
}

pub open spec fn matches_optional(r: Option<ResolvedRoleAssignment>, roles: Seq<TaskPackRole>, p: Option<Planned>) -> bool {
    match (r, p) {
        (None, None) => true,
        (Some(x), Some(q)) => matches_planned(x, roles, q),
        _ => false,
    }
}

pub open spec fn matches_round(r: Seq<ResolvedRoleAssignment>, roles: Seq<TaskPackRole>, p: Seq<Planned>) -> bool {
    r.len() == p.len() && forall|j: int| 0 <= j < r.len() ==> matches_planned(#[trigger] r[j], roles, p[j])
}

/// A resolved round is the planned one: the round's name and mode, and
/// the planned assignments.
pub open spec fn round_matches(r: ResolvedRoundPlan, t: TaskRound, roles: Seq<TaskPackRole>, p: Seq<Planned>) -> bool {
    r.name@ == t.name@ && r.mode == t.mode && matches_round(r.assignments@, roles, p)
}

/// The registry's error for a planning failure of `pack`.
pub open spec fn fault_matches(e: RegistryError, f: PlanFault, pack_id: Seq<char>) -> bool {
    match f {
        PlanFault::MissingRole(role) => e matches RegistryError::MissingRole { pack, role: r } && pack@ == pack_id && r@ == role,
        PlanFault::NoPlugins => e == RegistryError::NoPluginsAvailable,
    }
}

proof fn lemma_role_pos_found(roles: Seq<TaskPackRole>, id: Seq<char>, i: int)
    ensures
        role_pos(roles, id, i) matches Some(k) ==> i <= k < roles.len() && roles[k].id@ == id,
    decreases roles.len() - i,
{
    if 0 <= i < roles.len() && roles[i].id@ != id {
        lemma_role_pos_found(roles, id, i + 1);
    }
}

proof fn lemma_rounds_len(roles: Seq<TaskPackRole>, active: Seq<Seq<char>>, rounds: Seq<TaskRound>)
    ensures
        rounds_spec(roles, active, rounds) matches Ok(p) ==> p.len() == rounds.len(),
    decreases rounds.len(),
{
    if rounds.len() > 0 {
        lemma_rounds_len(roles, active, rounds.drop_last());
    }
}

proof fn lemma_round_err_sticks(roles: Seq<TaskPackRole>, active: Seq<Seq<char>>, asg: Seq<TaskAssignment>, i: int, j: int)
    requires
        0 <= i <= j <= asg.len(),
        round_spec(roles, active, asg.take(i)) is Err,
    ensures
        round_spec(roles, active, asg.take(j)) == round_spec(roles, active, asg.take(i)),
    decreases j - i,
{
    if i < j {
        lemma_round_err_sticks(roles, active, asg, i, j - 1);
        assert(asg.take(j).drop_last() =~= asg.take(j - 1));
    }
}

proof fn lemma_rounds_err_sticks(roles: Seq<TaskPackRole>, active: Seq<Seq<char>>, rs: Seq<TaskRound>, i: int, j: int)
    requires
        0 <= i <= j <= rs.len(),
        rounds_spec(roles, active, rs.take(i)) is Err,
    ensures
        rounds_spec(roles, active, rs.take(j)) == rounds_spec(roles, active, rs.take(i)),
    decreases j - i,
{
    if i < j {
        lemma_rounds_err_sticks(roles, active, rs, i, j - 1);
        assert(rs.take(j).drop_last() =~= rs.take(j - 1));
    }
}

impl PluginRegistry {
    /// The role of the pack with this id.
    pub fn role_from_pack(&self, pack: &TaskPack, role_id: &str) -> (r: Result<TaskPackRole, RegistryError>)
        ensures
            match role_pos(pack.manifest.roles@, role_id@, 0) {
                Some(k) => r is Ok && role_model(r.unwrap()) == role_model(pack.manifest.roles@[k]),
                None => r matches Err(RegistryError::MissingRole { pack: p, role }) && p@ == pack.manifest.id@ && role@
                    == role_id@,
            },
    {
        let roles = &pack.manifest.roles;
        let mut i: usize = 0;
        while i < roles.len()
            invariant
                i <= roles@.len(),
                *roles == pack.manifest.roles,
                role_pos(roles@, role_id@, 0) == role_pos(roles@, role_id@, i as int),
            decreases roles.len() - i,
        {
            if str_eq(roles[i].id.as_str(), role_id) {
                assert(role_pos(roles@, role_id@, i as int) == Some(i as int));
                return Ok(duplicate_role(&roles[i]));
            }
            i += 1;
        }
        Err(RegistryError::MissingRole { pack: pack.manifest.id.clone(), role: role_id.to_owned() })
    }

    fn resolve_with_used(&self, pack: &TaskPack, assignment: &TaskAssignment, used: &Vec<String>) -> (r: Result<ResolvedRoleAssignment, RegistryError>)
        ensures
            match resolve_spec(pack.manifest.roles@, strs(self.active_plugin_ids@), *assignment, strs(used@)) {
                Ok(p) => r is Ok && matches_planned(r.unwrap(), pack.manifest.roles@, p),
                Err(f) => r is Err && fault_matches(r->Err_0, f, pack.manifest.id@),
            },
    {
        proof {
            lemma_role_pos_found(pack.manifest.roles@, assignment.role@, 0);
        }
        let role = match self.role_from_pack(pack, assignment.role.as_str()) {
            Ok(role) => role,
            Err(e) => {
                return Err(e);
            },
        };
        let plugin_id = match self.resolve_assignment_plugin(assignment, used) {
            Ok(p) => p,
            Err(e) => {
                return Err(e);
            },
        };
        Ok(ResolvedRoleAssignment::new(role, plugin_id.as_str(), assignment.weight_override_permille))
    }

    /// A finalization step, resolved on its own.
    pub fn resolve_required_assignment(&self, pack: &TaskPack, assignment: &TaskAssignment) -> (r: Result<ResolvedRoleAssignment, RegistryError>)
        ensures
            match resolve_spec(pack.manifest.roles@, strs(self.active_plugin_ids@), *assignment, seq![]) {
                Ok(p) => r is Ok && matches_planned(r.unwrap(), pack.manifest.roles@, p),
                Err(f) => r is Err && fault_matches(r->Err_0, f, pack.manifest.id@),
            },
    {
        let used: Vec<String> = Vec::new();
        assert(strs(used@) =~= seq![]);
        self.resolve_with_used(pack, assignment, &used)
    }

    /// An optional finalization step, resolved when present.
    pub fn resolve_optional_assignment(&self, pack: &TaskPack, assignment: Option<&TaskAssignment>) -> (r: Result<Option<ResolvedRoleAssignment>, RegistryError>)
        ensures
            match optional_spec(
                pack.manifest.roles@,
                strs(self.active_plugin_ids@),
                match assignment {
                    Some(a) => Some(*a),
                    None => None,
                },
            ) {
                Ok(p) => r is Ok && matches_optional(r.unwrap(), pack.manifest.roles@, p),
                Err(f) => r is Err && fault_matches(r->Err_0, f, pack.manifest.id@),
            },
    {
        match assignment {
            None => Ok(None),
            Some(a) => match self.resolve_required_assignment(pack, a) {
                Ok(x) => Ok(Some(x)),
                Err(e) => Err(e),
            },
        }
    }

    fn resolve_round(&self, pack: &TaskPack, round: &TaskRound) -> (r: Result<Vec<ResolvedRoleAssignment>, RegistryError>)
        ensures
            match round_spec(pack.manifest.roles@, strs(self.active_plugin_ids@), round.assignments@) {
                Ok(p) => r is Ok && matches_round(r.unwrap()@, pack.manifest.roles@, p),
                Err(f) => r is Err && fault_matches(r->Err_0, f, pack.manifest.id@),
            },
    {
        let ghost roles = pack.manifest.roles@;
        let ghost active = strs(self.active_plugin_ids@);
        let ghost asg = round.assignments@;
        let mut used: Vec<String> = Vec::new();
        let mut out: Vec<ResolvedRoleAssignment> = Vec::new();
        let mut i: usize = 0;
        assert(asg.take(0) =~= seq![]);
        while i < round.assignments.len()
            invariant
                i <= asg.len(),
                asg == round.assignments@,
                roles == pack.manifest.roles@,
                active == strs(self.active_plugin_ids@),
                round_spec(roles, active, asg.take(i as int)) matches Ok(prev) && matches_round(out@, roles, prev)
                    && strs(used@) == planned_agents(prev),
            decreases round.assignments.len() - i,
        {
            let ghost prev = round_spec(roles, active, asg.take(i as int))->Ok_0;
            assert(asg.take(i + 1).drop_last() =~= asg.take(i as int));
            assert(asg.take(i + 1).last() == asg[i as int]);
            let a = &round.assignments[i];
            let x = match self.resolve_with_used(pack, a, &used) {
                Ok(x) => x,
                Err(e) => {
                    proof {
                        lemma_round_err_sticks(roles, active, asg, i + 1, asg.len() as int);
                        assert(asg.take(asg.len() as int) =~= asg);
                    }
                    return Err(e);
                },
            };
            let ghost p = resolve_spec(roles, active, asg[i as int], planned_agents(prev))->Ok_0;
            let ghost before_used = used@;
            let ghost before_out = out@;
            let pid = x.plugin_id.clone();
            assert(pid@ == p.1);
            used.push(pid);
            out.push(x);
            assert(strs(used@) =~= strs(before_used).push(p.1));
            assert(planned_agents(prev.push(p)) =~= planned_agents(prev).push(p.1));
            assert(strs(used@) =~= planned_agents(prev.push(p)));
            assert(out@ =~= before_out.push(x));
            assert(matches_round(out@, roles, prev.push(p))) by {
                assert forall|j: int| 0 <= j < out@.len() implies matches_planned(#[trigger] out@[j], roles, prev.push(p)[j]) by {
                    if j < before_out.len() {
                        assert(out@[j] == before_out[j]);
                        assert(prev.push(p)[j] == prev[j]);
                    }
                }
            }
            i += 1;
        }
        assert(asg.take(asg.len() as int) =~= asg);
        Ok(out)
    }

    /// Resolves every round and finalization step of a pack to a role and
    /// an agent; fails on the first assignment that names a missing role or
    /// finds no active agent.
    pub fn build_execution_plan(&self, pack: &TaskPack) -> (r: Result<ResolvedTaskPlan, RegistryError>)
        ensures
            match plan_spec(*pack, strs(self.active_plugin_ids@)) {
                Ok(p) => r is Ok && {
                    let plan = r.unwrap();
                    let roles = pack.manifest.roles@;
                    &&& plan.rounds@.len() == p.0.len()
                    &&& forall|i: int|
                        0 <= i < p.0.len() ==> round_matches(#[trigger] plan.rounds@[i], pack.manifest.rounds@[i], roles, p.0[i])
                    &&& matches_optional(plan.finalization.analyze, roles, p.1.0)
                    &&& matches_planned(plan.finalization.judge, roles, p.1.1)
                    &&& matches_optional(plan.finalization.convergence, roles, p.1.2)
                    &&& matches_optional(plan.finalization.structurizer, roles, p.1.3)
                    &&& matches_optional(plan.finalization.autofix, roles, p.1.4)
                },
                Err(f) => r is Err && fault_matches(r->Err_0, f, pack.manifest.id@),
            },
    {
        let ghost roles = pack.manifest.roles@;
        let ghost active = strs(self.active_plugin_ids@);
        let ghost rs = pack.manifest.rounds@;
        let mut rounds: Vec<ResolvedRoundPlan> = Vec::new();
        let mut i: usize = 0;
        assert(rs.take(0) =~= seq![]);
        while i < pack.manifest.rounds.len()
            invariant
                i <= rs.len(),
                rs == pack.manifest.rounds@,
                roles == pack.manifest.roles@,
                active == strs(self.active_plugin_ids@),
                rounds_spec(roles, active, rs.take(i as int)) matches Ok(prev) && rounds@.len() == prev.len() && forall|k: int|
                    0 <= k < prev.len() ==> round_matches(#[trigger] rounds@[k], rs[k], roles, prev[k]),
            decreases pack.manifest.rounds.len() - i,
        {
            let ghost prev = rounds_spec(roles, active, rs.take(i as int))->Ok_0;
            proof {
                lemma_rounds_len(roles, active, rs.take(i as int));
            }
            assert(prev.len() == i);
            assert(rs.take(i + 1).drop_last() =~= rs.take(i as int));
            assert(rs.take(i + 1).last() == rs[i as int]);
            let round = &pack.manifest.rounds[i];
            assert(*round == rs[i as int]);
            let assignments = match self.resolve_round(pack, round) {
                Ok(a) => a,
                Err(e) => {
                    proof {
                        lemma_rounds_err_sticks(roles, active, rs, i + 1, rs.len() as int);
                        assert(rs.take(rs.len() as int) =~= rs);
                    }
                    return Err(e);
                },
            };
            let ghost q = round_spec(roles, active, rs[i as int].assignments@)->Ok_0;
            let ghost before = rounds@;
            rounds.push(ResolvedRoundPlan { name: round.name.clone(), mode: round.mode, assignments });
            assert forall|k: int| 0 <= k < prev.push(q).len() implies round_matches(#[trigger] rounds@[k], rs[k], roles, prev.push(q)[k]) by {
                if k < prev.len() {
                    assert(rounds@[k] == before[k]);
                } else {
                    assert(k == i);
                    assert(prev.push(q)[k] == q);
                }
            }
            i += 1;
        }
        assert(rs.take(rs.len() as int) =~= rs);
        proof {
            lemma_rounds_len(roles, active, rs);
        }
        let f = &pack.manifest.finalization;
        let analyze = match self.resolve_optional_assignment(pack, f.analyze.as_ref()) {
            Ok(x) => x,
            Err(e) => {
                return Err(e);
            },
        };
        let judge = match self.resolve_required_assignment(pack, &f.judge) {
            Ok(x) => x,
            Err(e) => {
                return Err(e);
            },
        };
        let convergence = match self.resolve_optional_assignment(pack, f.convergence.as_ref()) {
            Ok(x) => x,
            Err(e) => {
                return Err(e);
            },
        };
        let structurizer = match self.resolve_optional_assignment(pack, f.structurizer.as_ref()) {
            Ok(x) => x,
            Err(e) => {
                return Err(e);
            },
        };
        let autofix = match self.resolve_optional_assignment(pack, f.autofix.as_ref()) {
            Ok(x) => x,
            Err(e) => {
                return Err(e);
            },
        };
        Ok(ResolvedTaskPlan {
            rounds,
            finalization: ResolvedFinalizationPlan { analyze, judge, convergence, structurizer, autofix },
        })
    }

    /// The agent for a resolved assignment, built from its agent's settings.
    pub fn instantiate_role_agent(&self, assignment: &ResolvedRoleAssignment) -> (r: Result<CliAgentPlugin, RegistryError>)
        ensures
            (exists|i: int| 0 <= i < self.plugin_configs@.len() && self.plugin_configs@[i].0@ == assignment.plugin_id@)
                <==> r is Ok,
            r is Ok ==> r.unwrap().id@ == assignment.runtime_id@ && r.unwrap().persona@ == assignment.role.persona@
                && r.unwrap().reviewer_focus@ == assignment.role.focus@ && r.unwrap().prompt_template
                == assignment.role.prompt_template,
            r is Ok ==> exists|i: int|
                0 <= i < self.plugin_configs@.len() && self.plugin_configs@[i].0@ == assignment.plugin_id@
                    && r.unwrap().command@ == (#[trigger] self.plugin_configs@[i].1).command@
                    && strs(r.unwrap().args@) == strs(self.plugin_configs@[i].1.args@)
                    && forall|k: int| 0 <= k < i ==> self.plugin_configs@[k].0@ != assignment.plugin_id@,
            r matches Err(e) ==> e matches RegistryError::MissingConfig(p) && p@ == assignment.plugin_id@,
    {
        match self.plugin_config(assignment.plugin_id.as_str()) {
            Some(cfg) => Ok(CliAgentPlugin::from_role(assignment.runtime_id.as_str(), assignment.plugin_id.as_str(), cfg, &assignment.role)),
            None => Err(RegistryError::MissingConfig(assignment.plugin_id.clone())),
        }
    }

    /// The focus analyzer for a resolved assignment (the same agent as for
    /// any other role).
    pub fn instantiate_focus_analyzer(&self, assignment: &ResolvedRoleAssignment) -> (r: Result<CliAgentPlugin, RegistryError>)
        ensures
            (exists|i: int| 0 <= i < self.plugin_configs@.len() && self.plugin_configs@[i].0@ == assignment.plugin_id@)
                <==> r is Ok,
            r is Ok ==> r.unwrap().id@ == assignment.runtime_id@ && r.unwrap().persona@ == assignment.role.persona@
                && r.unwrap().reviewer_focus@ == assignment.role.focus@ && r.unwrap().prompt_template
                == assignment.role.prompt_template,
            r is Ok ==> exists|i: int|
                0 <= i < self.plugin_configs@.len() && self.plugin_configs@[i].0@ == assignment.plugin_id@
                    && r.unwrap().command@ == (#[trigger] self.plugin_configs@[i].1).command@
                    && strs(r.unwrap().args@) == strs(self.plugin_configs@[i].1.args@)
                    && forall|k: int| 0 <= k < i ==> self.plugin_configs@[k].0@ != assignment.plugin_id@,
            r matches Err(e) ==> e matches RegistryError::MissingConfig(p) && p@ == assignment.plugin_id@,
    {
        self.instantiate_role_agent(assignment)
    }
}

proof fn lemma_some_unused(active: Seq<Seq<char>>, used: Seq<Seq<char>>)
    requires
        active.no_duplicates(),
        used.len() < active.len(),
    ensures
        exists|i: int| 0 <= i < active.len() && !used.contains(#[trigger] active[i]),
{
    if forall|i: int| 0 <= i < active.len() ==> used.contains(#[trigger] active[i]) {
        active.unique_seq_to_set();
        used.lemma_cardinality_of_set();
        assert forall|x: Seq<char>| active.to_set().contains(x) implies used.to_set().contains(x) by {
            let i = choose|i: int| 0 <= i < active.len() && active[i] == x;
            assert(used.contains(active[i]));
        }
        vstd::set_lib::lemma_len_subset(active.to_set(), used.to_set());
    }
}

/// While there are at least as many distinct active agents as assignments
/// in a round, no two assignments of the round share an agent.
pub proof fn law_round_agents_distinct(roles: Seq<TaskPackRole>, active: Seq<Seq<char>>, asg: Seq<TaskAssignment>)
    requires
        active.no_duplicates(),
        asg.len() <= active.len(),
    ensures
        round_spec(roles, active, asg) matches Ok(ps) ==> planned_agents(ps).no_duplicates(),
    decreases asg.len(),
{
    if asg.len() > 0 {
        law_round_agents_distinct(roles, active, asg.drop_last());
        lemma_round_len(roles, active, asg.drop_last());
        if let Ok(prev) = round_spec(roles, active, asg.drop_last()) {
            let used = planned_agents(prev);
            if let Some(k) = role_pos(roles, asg.last().role@, 0) {
                lemma_some_unused(active, used);
                law_assignment_active(active, asg.last().plugin@, used);
                if let Some(p) = assign_spec(active, asg.last().plugin@, used) {
                    assert(planned_agents(prev.push((k, p, weight_of(roles[k], asg.last().weight_override_permille))))
                        =~= used.push(p));
                }
            }
        }
    }
}

proof fn lemma_round_len(roles: Seq<TaskPackRole>, active: Seq<Seq<char>>, asg: Seq<TaskAssignment>)
    ensures
        round_spec(roles, active, asg) matches Ok(p) ==> p.len() == asg.len(),
    decreases asg.len(),
{
    if asg.len() > 0 {
        lemma_round_len(roles, active, asg.drop_last());
    }
}

} // verus!
