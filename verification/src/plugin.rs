//! Agents and the registry that assigns task-pack roles to them.
use vstd::prelude::*;
use crate::config::{config_keys, config_lookup, CliModel, CliPluginConfig, PluginsConfig};
use crate::consensus::RawConsensusItem;
use crate::progress::ConvergenceVerdict;
use crate::report::{clone_strs, strs, RawFinding};
use crate::task_pack::TaskAssignment;
use crate::text::str_eq;

verus! {

/// What an agent returns for a round: raw findings and a narrative.
#[derive(Clone, Debug)]
pub struct AgentReviewOutput {
    pub findings: Vec<RawFinding>,
    pub narrative: String,
}

/// A convergence judge's verdict and reason.
#[derive(Clone, Debug)]
pub struct ConvergenceDecision {
    pub verdict: ConvergenceVerdict,
    pub rationale: String,
}

/// What an agent returns for a round of a generic task.
#[derive(Clone, Debug)]
pub struct GenericAgentOutput {
    pub items: Vec<RawConsensusItem>,
    pub narrative: String,
}

/// An agent that can keep a conversation across rounds.
pub trait SessionCapable {
    fn start_session(&mut self, name: &str) -> Result<String, String>;

    fn resume_session(&self) -> Option<String>;

    fn mark_messages_sent(&mut self, up_to_index: usize);

    fn last_sent_index(&self) -> usize;

    fn end_session(&mut self);
}

/// The agents found available: up to three active, the rest on standby.
#[derive(Clone, Debug)]
pub struct ResolvedAgents {
    pub active: Vec<String>,
    pub standby: Vec<String>,
}

#[derive(Clone, Debug, PartialEq, Eq)]
pub enum AgentsError {
    /// None of the preferred agents is available.
    NoPreferredAgent,
    /// None of the configured agents is available.
    NoConfiguredAgent,
}

/// The preferred agents, in order, when the default pool is in use.
pub open spec fn preferred_agents() -> Seq<Seq<char>> {
    seq!["codex"@, "gemini"@, "open-code"@]
}

/// The configured agents form the default pool: more than one of them, all
/// preferred agents.
pub open spec fn uses_default_pool(agents: Seq<Seq<char>>) -> bool {
    agents.len() > 1 && forall|i: int| 0 <= i < agents.len() ==> preferred_agents().contains(#[trigger] agents[i])
}

/// The agents asked for: the preferred order for the default pool, else the
/// configured agents.
pub open spec fn requested_agents(agents: Seq<Seq<char>>) -> Seq<Seq<char>> {
    if uses_default_pool(agents) {
        preferred_agents()
    } else {
        agents
    }
}

/// The first three available agents are active, the rest stand by; none
/// available is an error that says which pool was asked.
pub open spec fn split_spec(available: Seq<Seq<char>>, default_pool: bool) -> Result<(Seq<Seq<char>>, Seq<Seq<char>>), AgentsError> {
    if available.len() > 0 {
        let n = if available.len() < 3 {
            available.len() as int
        } else {
            3
        };
        Ok((available.take(n), available.skip(n)))
    } else if default_pool {
        Err(AgentsError::NoPreferredAgent)
    } else {
        Err(AgentsError::NoConfiguredAgent)
    }
}

/// The requested agents kept where `keep` holds, in order.
pub open spec fn select(s: Seq<Seq<char>>, keep: Seq<bool>) -> Seq<Seq<char>>
    decreases s.len(),
{
    if s.len() == 0 || keep.len() != s.len() {
        seq![]
    } else {
        let r = select(s.drop_last(), keep.drop_last());
        if keep.last() {
            r.push(s.last())
        } else {
            r
        }
    }
}

pub open spec fn resolved_model(r: Result<ResolvedAgents, AgentsError>) -> Result<(Seq<Seq<char>>, Seq<Seq<char>>), AgentsError> {
    match r {
        Ok(a) => Ok((strs(a.active@), strs(a.standby@))),
        Err(e) => Err(e),
    }
}

/// Splits the available agents into active and standby.
pub fn split_available(available: Vec<String>, default_pool: bool) -> (r: Result<ResolvedAgents, AgentsError>)
    ensures
        resolved_model(r) == split_spec(strs(available@), default_pool),
{
    if available.len() == 0 {
        return if default_pool {
            Err(AgentsError::NoPreferredAgent)
        } else {
            Err(AgentsError::NoConfiguredAgent)
        };
    }
    let n: usize = if available.len() < 3 {
        available.len()
    } else {
        3
    };
    let mut active: Vec<String> = Vec::new();
    let mut standby: Vec<String> = Vec::new();
    let mut i: usize = 0;
    while i < available.len()
        invariant
            i <= available@.len(),
            n <= available@.len(),
            active@.len() == if i < n {
                i
            } else {
                n
            },
            standby@.len() == if i < n {
                0
            } else {
                i - n
            },
            forall|k: int| 0 <= k < active@.len() ==> #[trigger] active@[k]@ == available@[k]@,
            forall|k: int| 0 <= k < standby@.len() ==> #[trigger] standby@[k]@ == available@[n + k]@,
        decreases available.len() - i,
    {
        if i < n {
            active.push(available[i].clone());
        } else {
            standby.push(available[i].clone());
        }
        i += 1;
    }
    assert(strs(active@) =~= strs(available@).take(n as int));
    assert(strs(standby@) =~= strs(available@).skip(n as int));
    Ok(ResolvedAgents { active, standby })
}

/// Calls `which::which`: does `command` resolve to an executable on the
/// search path? Nothing is promised of the answer, which depends on the
/// machine's `PATH` and files.
#[verifier::external_body]
fn command_on_path(command: &str) -> (r: bool) {
    which::which(command).is_ok()
}

fn is_preferred(id: &String) -> (r: bool)
    ensures
        r == preferred_agents().contains(id@),
{
    let r = str_eq(id.as_str(), "codex") || str_eq(id.as_str(), "gemini") || str_eq(id.as_str(), "open-code");
    proof {
        let p = preferred_agents();
        if r {
            if id@ == "codex"@ {
                assert(p[0] == id@);
            } else if id@ == "gemini"@ {
                assert(p[1] == id@);
            } else {
                assert(p[2] == id@);
            }
        }
        if p.contains(id@) {
            let k = choose|k: int| 0 <= k < p.len() && p[k] == id@;
            assert(k == 0 || k == 1 || k == 2);
        }
    }
    r
}

/// The requested agents that have settings, each with the command of its
/// settings, in request order.
pub open spec fn probe_entries(configs: Seq<(String, CliPluginConfig)>, req: Seq<Seq<char>>) -> Seq<(Seq<char>, Seq<char>)>
    decreases req.len(),
{
    if req.len() == 0 {
        seq![]
    } else {
        probe_entries(configs, req.drop_last()) + match config_lookup(configs, req.last()) {
            Some(c) => seq![(req.last(), c.command)],
            None => seq![],
        }
    }
}

pub open spec fn probe_list_spec(cfg: PluginsConfig) -> Seq<(Seq<char>, Seq<char>)> {
    probe_entries(cfg.agent_configs@, requested_agents(strs(cfg.agents@)))
}

/// The commands looked for on the search path: the configured command of
/// each requested agent that has settings, in request order.
pub open spec fn probe_spec(cfg: PluginsConfig) -> Seq<Seq<char>> {
    probe_list_spec(cfg).map_values(|e: (Seq<char>, Seq<char>)| e.1)
}

/// The requested agents that have settings, in request order.
pub open spec fn with_settings(cfg: PluginsConfig) -> Seq<Seq<char>> {
    probe_list_spec(cfg).map_values(|e: (Seq<char>, Seq<char>)| e.0)
}

/// The resolution for the answers of the probes (one per probed command):
/// the agents whose command was found, split into active and standby.
pub open spec fn resolve_spec(cfg: PluginsConfig, found: Seq<bool>) -> Result<(Seq<Seq<char>>, Seq<Seq<char>>), AgentsError> {
    split_spec(select(with_settings(cfg), found), uses_default_pool(strs(cfg.agents@)))
}

/// What a resolution of the configured agents may give: the resolution for
/// some answer of each probe.
pub open spec fn resolution_allowed(cfg: PluginsConfig, r: Result<ResolvedAgents, AgentsError>) -> bool {
    exists|found: Seq<bool>| found.len() == probe_spec(cfg).len() && resolved_model(r) == #[trigger] resolve_spec(cfg, found)
}

impl PluginsConfig {
    /// Whether the configured agents form the default pool.
    pub fn uses_default_agent_pool(&self) -> (r: bool)
        ensures
            r == uses_default_pool(strs(self.agents@)),
    {
        if self.agents.len() <= 1 {
            return false;
        }
        let mut i: usize = 0;
        while i < self.agents.len()
            invariant
                i <= self.agents@.len(),
                forall|k: int| 0 <= k < i ==> preferred_agents().contains(#[trigger] strs(self.agents@)[k]),
            decreases self.agents.len() - i,
        {
            if !is_preferred(&self.agents[i]) {
                assert(!preferred_agents().contains(strs(self.agents@)[i as int]));
                return false;
            }
            i += 1;
        }
        true
    }

    /// The agents to look for, in order.
    pub fn requested(&self) -> (r: Vec<String>)
        ensures
            strs(r@) == requested_agents(strs(self.agents@)),
    {
        if self.uses_default_agent_pool() {
            let mut v: Vec<String> = Vec::new();
            v.push("codex".to_owned());
            v.push("gemini".to_owned());
            v.push("open-code".to_owned());
            assert(strs(v@) =~= preferred_agents());
            v
        } else {
            clone_strs(&self.agents)
        }
    }

    /// The requested agents that have settings, each with its command.
    fn probe_list(&self) -> (r: Vec<(String, String)>)
        ensures
            r@.map_values(|e: (String, String)| (e.0@, e.1@)) == probe_list_spec(*self),
    {
        let requested = self.requested();
        let ghost req = strs(requested@);
        let mut out: Vec<(String, String)> = Vec::new();
        let mut i: usize = 0;
        while i < requested.len()
            invariant
                i <= requested@.len(),
                req == strs(requested@),
                req == requested_agents(strs(self.agents@)),
                out@.map_values(|e: (String, String)| (e.0@, e.1@)) == probe_entries(self.agent_configs@, req.take(i as int)),
            decreases requested.len() - i,
        {
            proof {
                assert(req.take(i + 1).drop_last() =~= req.take(i as int));
                assert(req.take(i + 1).last() == requested@[i as int]@);
            }
            let ghost before = out@.map_values(|e: (String, String)| (e.0@, e.1@));
            match self.resolve_role(requested[i].as_str()) {
                Some(role) => {
                    out.push((requested[i].clone(), role.command.clone()));
                    assert(out@.map_values(|e: (String, String)| (e.0@, e.1@)) =~= before.push(
                        (requested@[i as int]@, role.command@),
                    ));
                },
                None => {},
            }
            i += 1;
        }
        assert(req.take(requested@.len() as int) =~= req);
        out
    }

    /// The commands to look for on the search path: the configured command of
    /// each requested agent that has settings, in request order.
    pub fn probe_commands(&self) -> (r: Vec<String>)
        ensures
            strs(r@) == probe_spec(*self),
    {
        let list = self.probe_list();
        let ghost lm = list@.map_values(|e: (String, String)| (e.0@, e.1@));
        let mut out: Vec<String> = Vec::new();
        let mut i: usize = 0;
        while i < list.len()
            invariant
                i <= list@.len(),
                lm == list@.map_values(|e: (String, String)| (e.0@, e.1@)),
                strs(out@) == lm.map_values(|e: (Seq<char>, Seq<char>)| e.1).take(i as int),
            decreases list.len() - i,
        {
            let ghost before = strs(out@);
            out.push(list[i].1.clone());
            assert(strs(out@) =~= before.push(lm[i as int].1));
            assert(lm.map_values(|e: (Seq<char>, Seq<char>)| e.1).take(i + 1) =~= lm.map_values(
                |e: (Seq<char>, Seq<char>)| e.1,
            ).take(i as int).push(lm[i as int].1));
            i += 1;
        }
        assert(lm.map_values(|e: (Seq<char>, Seq<char>)| e.1).take(list@.len() as int) =~= lm.map_values(
            |e: (Seq<char>, Seq<char>)| e.1,
        ));
        out
    }

    /// The resolution for the answers of the probes, one per command of
    /// `probe_commands`: the agents whose command was found, in request
    /// order, split into active and standby.
    pub fn resolve_with(&self, found: &Vec<bool>) -> (r: Result<ResolvedAgents, AgentsError>)
        requires
            found@.len() == probe_spec(*self).len(),
        ensures
            resolved_model(r) == resolve_spec(*self, found@),
    {
        let list = self.probe_list();
        let ghost ids = with_settings(*self);
        let ghost lm = list@.map_values(|e: (String, String)| (e.0@, e.1@));
        assert(ids =~= lm.map_values(|e: (Seq<char>, Seq<char>)| e.0));
        let mut available: Vec<String> = Vec::new();
        let mut i: usize = 0;
        while i < list.len()
            invariant
                i <= list@.len(),
                found@.len() == list@.len(),
                ids.len() == list@.len(),
                forall|k: int| 0 <= k < list@.len() ==> #[trigger] ids[k] == list@[k].0@,
                strs(available@) == select(ids.take(i as int), found@.take(i as int)),
            decreases list.len() - i,
        {
            proof {
                assert(ids.take(i + 1).drop_last() =~= ids.take(i as int));
                assert(found@.take(i + 1).drop_last() =~= found@.take(i as int));
                assert(ids.take(i + 1).last() == list@[i as int].0@);
            }
            let ghost before = strs(available@);
            if found[i] {
                available.push(list[i].0.clone());
                assert(strs(available@) =~= before.push(list@[i as int].0@));
            }
            i += 1;
        }
        assert(ids.take(list@.len() as int) =~= ids);
        assert(found@.take(list@.len() as int) =~= found@);
        let pool = self.uses_default_agent_pool();
        split_available(available, pool)
    }

    /// The requested agents whose command is on the search path, split into
    /// active and standby. Each command of `probe_commands` is looked up
    /// once; which are found depends on the machine, so the result is the
    /// resolution for some answer of each probe.
    pub fn resolve_available_agents(&self) -> (r: Result<ResolvedAgents, AgentsError>)
        ensures
            resolution_allowed(*self, r),
    {
        let commands = self.probe_commands();
        let mut found: Vec<bool> = Vec::new();
        let mut i: usize = 0;
        while i < commands.len()
            invariant
                i <= commands@.len(),
                found@.len() == i,
            decreases commands.len() - i,
        {
            found.push(command_on_path(commands[i].as_str()));
            i += 1;
        }
        let r = self.resolve_with(&found);
        assert(resolved_model(r) == resolve_spec(*self, found@));
        r
    }
}

/// The registry of agents a run may use.
#[derive(Clone, Debug)]
pub struct PluginRegistry {
    pub active_plugin_ids: Vec<String>,
    pub standby_plugin_ids: Vec<String>,
    pub plugin_configs: Vec<(String, CliPluginConfig)>,
}

#[derive(Clone, Debug, PartialEq, Eq)]
pub enum RegistryError {
    /// Resolving the agents failed.
    Agents(AgentsError),
    /// No agent was resolved as active.
    NoAgentsConfigured,
    /// There is no active agent to assign.
    NoPluginsAvailable,
    /// A task pack names a role it does not define.
    MissingRole { pack: String, role: String },
    /// An agent has no settings.
    MissingConfig(String),
}

/// The agent an assignment gets, given the agents already used in its
/// round: its own plugin if active and unused, else the first unused active
/// agent, else its own plugin if active, else the first active agent.
pub open spec fn assign_spec(active: Seq<Seq<char>>, plugin: Seq<char>, used: Seq<Seq<char>>) -> Option<Seq<char>> {
    if active.len() == 0 {
        None
    } else if active.contains(plugin) && !used.contains(plugin) {
        Some(plugin)
    } else if exists|i: int| 0 <= i < active.len() && !used.contains(#[trigger] active[i]) {
        Some(active[first_unused(active, used, 0)])
    } else if active.contains(plugin) {
        Some(plugin)
    } else {
        Some(active[0])
    }
}

/// The first index at or after `i` of an active agent not yet used.
pub open spec fn first_unused(active: Seq<Seq<char>>, used: Seq<Seq<char>>, i: int) -> int
    decreases active.len() - i,
{
    if i < 0 || i >= active.len() {
        active.len() as int
    } else if !used.contains(active[i]) {
        i
    } else {
        first_unused(active, used, i + 1)
    }
}

proof fn lemma_first_unused(active: Seq<Seq<char>>, used: Seq<Seq<char>>, i: int, j: int)
    requires
        0 <= i <= j < active.len(),
        !used.contains(active[j]),
    ensures
        i <= first_unused(active, used, i) <= j,
        !used.contains(active[first_unused(active, used, i)]),
    decreases j - i,
{
    if used.contains(active[i]) {
        lemma_first_unused(active, used, i + 1, j);
    }
}

/// An assignment always gets an active agent when there is one, and an
/// agent not yet used in its round whenever one is left.
pub proof fn law_assignment_active(active: Seq<Seq<char>>, plugin: Seq<char>, used: Seq<Seq<char>>)
    ensures
        active.len() == 0 <==> assign_spec(active, plugin, used) is None,
        assign_spec(active, plugin, used) matches Some(a) ==> active.contains(a),
        (exists|i: int| 0 <= i < active.len() && !used.contains(#[trigger] active[i])) ==> (
        assign_spec(active, plugin, used) matches Some(a) && !used.contains(a)),
{
    if active.len() > 0 {
        assert(active.contains(active[0]));
        if exists|i: int| 0 <= i < active.len() && !used.contains(#[trigger] active[i]) {
            let j = choose|i: int| 0 <= i < active.len() && !used.contains(#[trigger] active[i]);
            lemma_first_unused(active, used, 0, j);
            assert(active.contains(active[first_unused(active, used, 0)]));
        }
    }
}

/// At most three agents are active, at least one when any is available,
/// and the active agents followed by the standby ones are the available
/// agents in order.
pub proof fn law_split_partition(available: Seq<Seq<char>>, default_pool: bool)
    ensures
        split_spec(available, default_pool) is Ok <==> available.len() > 0,
        split_spec(available, default_pool) matches Ok(p) ==> 1 <= p.0.len() <= 3 && p.0 + p.1 == available,
{
    if available.len() > 0 {
        let n = if available.len() < 3 {
            available.len() as int
        } else {
            3
        };
        assert(available.take(n) + available.skip(n) =~= available);
    }
}

fn strings_contain(v: &Vec<String>, x: &String) -> (r: bool)
    ensures
        r == strs(v@).contains(x@),
{
    let mut i: usize = 0;
    while i < v.len()
        invariant
            i <= v@.len(),
            forall|k: int| 0 <= k < i ==> strs(v@)[k] != x@,
        decreases v.len() - i,
    {
        if str_eq(v[i].as_str(), x.as_str()) {
            assert(strs(v@)[i as int] == x@);
            return true;
        }
        i += 1;
    }
    false
}

/// The settings of the agents, by id.
pub open spec fn configs_model(v: Seq<(String, CliPluginConfig)>) -> Seq<(Seq<char>, CliModel)> {
    v.map_values(|e: (String, CliPluginConfig)| (e.0@, e.1@))
}

/// The registry that a resolution gives: the resolution's error; no agent
/// configured when none is active; else its agents and every configured
/// agent's settings.
pub open spec fn registry_from(
    cfg: PluginsConfig,
    res: Result<ResolvedAgents, AgentsError>,
    r: Result<PluginRegistry, RegistryError>,
) -> bool {
    match res {
        Err(e) => r == Err::<PluginRegistry, RegistryError>(RegistryError::Agents(e)),
        Ok(a) => if a.active@.len() == 0 {
            r == Err::<PluginRegistry, RegistryError>(RegistryError::NoAgentsConfigured)
        } else {
            &&& r is Ok
            &&& strs(r.unwrap().active_plugin_ids@) == strs(a.active@)
            &&& strs(r.unwrap().standby_plugin_ids@) == strs(a.standby@)
            &&& configs_model(r.unwrap().plugin_configs@) == configs_model(cfg.agent_configs@)
        },
    }
}

impl PluginRegistry {
    /// The registry for a configuration: the available agents, with the
    /// configured settings of every agent. Which agents are available
    /// depends on the machine; the result is what `from_resolved` gives for
    /// some resolution that the configuration allows.
    pub fn from_config(cfg: &PluginsConfig) -> (r: Result<PluginRegistry, RegistryError>)
        ensures
            exists|res: Result<ResolvedAgents, AgentsError>|
                resolution_allowed(*cfg, res) && #[trigger] registry_from(*cfg, res, r),
    {
        let resolved = cfg.resolve_available_agents();
        let r = Self::from_resolved(cfg, resolved);
        assert(resolution_allowed(*cfg, resolved) && registry_from(*cfg, resolved, r));
        r
    }

    /// The registry for a resolution of the agents: its error, an error when
    /// no agent is active, else its active and standby agents with the
    /// configured settings of every agent.
    pub fn from_resolved(cfg: &PluginsConfig, resolved: Result<ResolvedAgents, AgentsError>) -> (r: Result<PluginRegistry, RegistryError>)
        ensures
            registry_from(*cfg, resolved, r),
    {
        let agents = match resolved {
            Ok(a) => a,
            Err(e) => {
                return Err(RegistryError::Agents(e));
            },
        };
        if agents.active.len() == 0 {
            return Err(RegistryError::NoAgentsConfigured);
        }
        let mut configs: Vec<(String, CliPluginConfig)> = Vec::new();
        let mut i: usize = 0;
        while i < cfg.agent_configs.len()
            invariant
                i <= cfg.agent_configs@.len(),
                configs@.len() == i,
                forall|k: int| 0 <= k < i ==> #[trigger] configs@[k].0@ == cfg.agent_configs@[k].0@
                    && configs@[k].1@ == cfg.agent_configs@[k].1@,
            decreases cfg.agent_configs.len() - i,
        {
            configs.push((cfg.agent_configs[i].0.clone(), cfg.agent_configs[i].1.duplicate()));
            i += 1;
        }
        assert(configs_model(configs@) =~= configs_model(cfg.agent_configs@));
        Ok(PluginRegistry { active_plugin_ids: agents.active, standby_plugin_ids: agents.standby, plugin_configs: configs })
    }

    /// The agent for an assignment, avoiding agents already used in its round.
    pub fn resolve_assignment_plugin(&self, assignment: &TaskAssignment, used: &Vec<String>) -> (r: Result<String, RegistryError>)
        ensures
            match assign_spec(strs(self.active_plugin_ids@), assignment.plugin@, strs(used@)) {
                Some(p) => r is Ok && r.unwrap()@ == p,
                None => r == Err::<String, RegistryError>(RegistryError::NoPluginsAvailable),
            },
    {
        let active = &self.active_plugin_ids;
        let ghost a = strs(active@);
        let ghost u = strs(used@);
        if active.len() == 0 {
            return Err(RegistryError::NoPluginsAvailable);
        }
        let own_active = strings_contain(active, &assignment.plugin);
        let own_used = strings_contain(used, &assignment.plugin);
        if own_active && !own_used {
            return Ok(assignment.plugin.clone());
        }
        let mut i: usize = 0;
        while i < active.len() && strings_contain(used, &active[i])
            invariant
                i <= active@.len(),
                a == strs(active@),
                u == strs(used@),
                forall|k: int| 0 <= k < i ==> u.contains(#[trigger] a[k]),
                first_unused(a, u, 0) == first_unused(a, u, i as int),
            decreases active.len() - i,
        {
            assert(a[i as int] == active@[i as int]@);
            i += 1;
        }
        if i < active.len() {
            assert(a[i as int] == active@[i as int]@);
            assert(!u.contains(a[i as int]));
            return Ok(active[i].clone());
        }
        assert(!(exists|k: int| 0 <= k < a.len() && !u.contains(#[trigger] a[k])));
        if own_active {
            return Ok(assignment.plugin.clone());
        }
        assert(a[0] == active@[0]@);
        Ok(active[0].clone())
    }

    /// The settings of the agent with this id, if configured.
    pub fn plugin_config(&self, id: &str) -> (r: Option<&CliPluginConfig>)
        ensures
            r is None <==> (forall|i: int| 0 <= i < self.plugin_configs@.len() ==> self.plugin_configs@[i].0@ != id@),
            r is Some ==> exists|i: int|
                0 <= i < self.plugin_configs@.len() && self.plugin_configs@[i].0@ == id@
                    && *r.unwrap() == #[trigger] self.plugin_configs@[i].1
                    && forall|k: int| 0 <= k < i ==> self.plugin_configs@[k].0@ != id@,
    {
        let mut i: usize = 0;
        while i < self.plugin_configs.len()
            invariant
                i <= self.plugin_configs@.len(),
                forall|k: int| 0 <= k < i ==> self.plugin_configs@[k].0@ != id@,
            decreases self.plugin_configs.len() - i,
        {
            if str_eq(self.plugin_configs[i].0.as_str(), id) {
                return Some(&self.plugin_configs[i].1);
            }
            i += 1;
        }
        None
    }
}

} // verus!
