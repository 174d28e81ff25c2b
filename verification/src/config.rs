//! Configuration sections and their built-in defaults.
use vstd::prelude::*;
use crate::order::chars_lt;
use crate::report::{strs, clone_strs};
use crate::text::str_eq;

verus! {

#[derive(Clone, Debug)]
pub struct CrucibleSection {
    pub version: String,
}

#[derive(Clone, Debug)]
pub struct GateConfig {
    pub enabled: bool,
    pub untangle_bin: String,
}

#[derive(Clone, Debug)]
pub struct ContextConfig {
    pub reference_max_depth: usize,
    pub reference_max_files: usize,
    pub history_max_commits: usize,
    pub history_max_days: u32,
    pub docs_patterns: Vec<String>,
    pub docs_max_bytes: usize,
}

/// Coordinator settings. The quorum threshold is a fraction held in
/// thousandths (`750` stands for three quarters).
#[derive(Clone, Debug)]
pub struct CoordinatorConfig {
    pub max_rounds: u8,
    pub quorum_permille: u32,
    pub agent_timeout_secs: u64,
    pub devil_advocate: bool,
    pub max_diff_lines_per_chunk: usize,
    pub max_diff_chunks: usize,
    pub enable_structurizer: bool,
}

#[derive(Clone, Debug)]
pub struct VerdictConfig {
    pub block_on: String,
}

#[derive(Clone, Debug)]
pub struct RateLimitConfig {
    pub anthropic_rpm: u32,
    pub google_rpm: u32,
    pub openai_rpm: u32,
}

#[derive(Clone, Debug)]
pub struct PrecheckConfig {
    pub enabled: bool,
    pub include_untangle: bool,
    pub include_linters: bool,
    pub include_type_checks: bool,
    pub include_tests: bool,
    pub timeout_secs: u64,
}

impl Default for PrecheckConfig {
    fn default() -> (r: Self)
        ensures
            r.enabled && r.include_untangle && r.include_linters && r.include_type_checks
                && r.include_tests,
            r.timeout_secs == 30,
    {
        PrecheckConfig {
            enabled: true,
            include_untangle: true,
            include_linters: true,
            include_type_checks: true,
            include_tests: true,
            timeout_secs: 30,
        }
    }
}

#[derive(Clone, Debug)]
pub struct TaskPackConfig {
    pub paths: Vec<String>,
}

impl Default for TaskPackConfig {
    fn default() -> (r: Self)
        ensures
            r.paths@.len() == 0,
    {
        TaskPackConfig { paths: Vec::new() }
    }
}

/// How to launch one agent: a command and its arguments.
#[derive(Clone, Debug)]
pub struct CliPluginConfig {
    pub command: String,
    pub args: Vec<String>,
}

pub struct CliModel {
    pub command: Seq<char>,
    pub args: Seq<Seq<char>>,
}

impl View for CliPluginConfig {
    type V = CliModel;

    open spec fn view(&self) -> CliModel {
        CliModel { command: self.command@, args: strs(self.args@) }
    }
}

impl CliPluginConfig {
    pub fn duplicate(&self) -> (r: Self)
        ensures
            r@ == self@,
    {
        CliPluginConfig { command: self.command.clone(), args: clone_strs(&self.args) }
    }
}

/// The agent roster: the agents to run, extra plugin paths, and the launch
/// settings of each known agent, keyed by agent id in ascending order.
#[derive(Clone, Debug)]
pub struct PluginsConfig {
    pub agents: Vec<String>,
    pub paths: Vec<String>,
    pub agent_configs: Vec<(String, CliPluginConfig)>,
}

pub open spec fn config_keys(v: Seq<(String, CliPluginConfig)>) -> Seq<Seq<char>> {
    v.map_values(|e: (String, CliPluginConfig)| e.0@)
}

/// Keys strictly ascending: each id occurs once, as in an ordered map.
pub open spec fn keys_ascending(keys: Seq<Seq<char>>) -> bool {
    forall|i: int, j: int| 0 <= i < j < keys.len() ==> chars_lt(#[trigger] keys[i], #[trigger] keys[j])
}

impl PluginsConfig {
    pub open spec fn wf(&self) -> bool {
        keys_ascending(config_keys(self.agent_configs@))
    }

    /// The launch settings registered under `id`, if any: those of the
    /// first entry with that id.
    pub fn resolve_role(&self, id: &str) -> (r: Option<&CliPluginConfig>)
        ensures
            r.is_none() <==> (forall|i: int|
                0 <= i < self.agent_configs@.len() ==> self.agent_configs@[i].0@ != id@),
            r.is_some() ==> (exists|i: int|
                0 <= i < self.agent_configs@.len() && self.agent_configs@[i].0@ == id@
                    && r.unwrap()@ == self.agent_configs@[i].1@),
            match r {
                Some(c) => config_lookup(self.agent_configs@, id@) == Some(c@),
                None => config_lookup(self.agent_configs@, id@) is None,
            },
    {
        let mut i: usize = 0;
        while i < self.agent_configs.len()
            invariant
                i <= self.agent_configs@.len(),
                forall|k: int| 0 <= k < i ==> self.agent_configs@[k].0@ != id@,
                config_pos(self.agent_configs@, id@, 0) == config_pos(self.agent_configs@, id@, i as int),
            decreases self.agent_configs.len() - i,
        {
            if str_eq(self.agent_configs[i].0.as_str(), id) {
                return Some(&self.agent_configs[i].1);
            }
            i += 1;
        }
        None
    }
}

/// The first entry at or after `i` registered under `id`.
pub open spec fn config_pos(v: Seq<(String, CliPluginConfig)>, id: Seq<char>, i: int) -> Option<int>
    decreases v.len() - i,
{
    if i < 0 || i >= v.len() {
        None
    } else if v[i].0@ == id {
        Some(i)
    } else {
        config_pos(v, id, i + 1)
    }
}

/// The settings registered under `id`: those of its first entry.
pub open spec fn config_lookup(v: Seq<(String, CliPluginConfig)>, id: Seq<char>) -> Option<CliModel> {
    match config_pos(v, id, 0) {
        Some(k) => Some(v[k].1@),
        None => None,
    }
}

#[derive(Clone, Debug)]
pub struct CrucibleConfig {
    pub crucible: CrucibleSection,
    pub gate: GateConfig,
    pub context: ContextConfig,
    pub coordinator: CoordinatorConfig,
    pub verdict: VerdictConfig,
    pub rate_limits: RateLimitConfig,
    pub prechecks: PrecheckConfig,
    pub task_packs: TaskPackConfig,
    pub plugins: PluginsConfig,
}

fn owned(s: &str) -> (r: String)
    ensures
        r@ == s@,
{
    s.to_owned()
}

fn owned_list(items: &[&str]) -> (r: Vec<String>)
    ensures
        r@.len() == items@.len(),
        forall|i: int| 0 <= i < items@.len() ==> #[trigger] r@[i]@ == items@[i]@,
{
    let mut out: Vec<String> = Vec::new();
    let mut i: usize = 0;
    while i < items.len()
        invariant
            i <= items@.len(),
            out@.len() == i,
            forall|k: int| 0 <= k < i ==> #[trigger] out@[k]@ == items@[k]@,
        decreases items.len() - i,
    {
        out.push(owned(items[i]));
        i += 1;
    }
    out
}

fn plugin(command: &str, args: &[&str]) -> (r: CliPluginConfig)
    ensures
        r.command@ == command@,
        r.args@.len() == args@.len(),
        forall|i: int| 0 <= i < args@.len() ==> #[trigger] r.args@[i]@ == args@[i]@,
{
    CliPluginConfig { command: owned(command), args: owned_list(args) }
}

/// The agent ids of the built-in roster, in ascending order.
pub open spec fn builtin_agent_ids() -> Seq<Seq<char>> {
    seq![
        "codex"@,
        "gemini"@,
        "open-code"@,
        "opencode-glm"@,
        "opencode-kimi"@,
    ]
}

/// The agents run by default.
pub open spec fn default_agents() -> Seq<Seq<char>> {
    seq!["codex"@, "gemini"@, "open-code"@]
}

impl Default for CrucibleConfig {
    /// The built-in configuration used when no file is found.
    fn default() -> (r: Self)
        ensures
            r.crucible.version@ == "1"@,
            r.gate.enabled,
            r.gate.untangle_bin@ == "untangle"@,
            r.context.reference_max_depth == 2,
            r.context.reference_max_files == 30,
            r.context.history_max_commits == 20,
            r.context.history_max_days == 30,
            strs(r.context.docs_patterns@) == seq!["docs/**/*.md"@, "README.md"@, "ARCHITECTURE.md"@],
            r.context.docs_max_bytes == 50_000,
            r.coordinator.max_rounds == 2,
            r.coordinator.quorum_permille == 750,
            r.coordinator.agent_timeout_secs == 90,
            !r.coordinator.devil_advocate,
            r.coordinator.max_diff_lines_per_chunk == 1200,
            r.coordinator.max_diff_chunks == 6,
            r.coordinator.enable_structurizer,
            r.verdict.block_on@ == "Critical"@,
            r.rate_limits.anthropic_rpm == 50,
            r.rate_limits.google_rpm == 60,
            r.rate_limits.openai_rpm == 60,
            r.prechecks.enabled && r.prechecks.include_untangle && r.prechecks.include_linters,
            r.prechecks.include_type_checks && r.prechecks.include_tests,
            r.prechecks.timeout_secs == 30,
            r.task_packs.paths@.len() == 0,
            strs(r.plugins.agents@) == default_agents(),
            r.plugins.paths@.len() == 0,
            config_keys(r.plugins.agent_configs@) == builtin_agent_ids(),
            r.plugins.agent_configs@[0].1@ == (CliModel {
                command: "codex"@,
                args: seq!["exec"@, "-"@, "--color"@, "never"@],
            }),
            r.plugins.agent_configs@[1].1@ == (CliModel {
                command: "gemini"@,
                args: seq!["-y"@, "-o"@, "json"@],
            }),
            r.plugins.agent_configs@[2].1@ == (CliModel { command: "opencode"@, args: seq![] }),
            r.plugins.agent_configs@[3].1@ == (CliModel {
                command: "opencode"@,
                args: seq!["run"@, "--model"@, "zai-coding-plan/glm-5.1"@, "--format"@, "json"@],
            }),
            r.plugins.agent_configs@[4].1@ == (CliModel {
                command: "opencode"@,
                args: seq!["run"@, "--model"@, "moonshot/kimi-k2-5"@, "--format"@, "json"@],
            }),
    {
        let mut configs: Vec<(String, CliPluginConfig)> = Vec::new();
        configs.push((owned("codex"), plugin("codex", &["exec", "-", "--color", "never"])));
        configs.push((owned("gemini"), plugin("gemini", &["-y", "-o", "json"])));
        configs.push((owned("open-code"), plugin("opencode", &[])));
        configs.push(
            (
                owned("opencode-glm"),
                plugin("opencode", &["run", "--model", "zai-coding-plan/glm-5.1", "--format", "json"]),
            ),
        );
        configs.push(
            (
                owned("opencode-kimi"),
                plugin("opencode", &["run", "--model", "moonshot/kimi-k2-5", "--format", "json"]),
            ),
        );
        let cfg = CrucibleConfig {
            crucible: CrucibleSection { version: owned("1") },
            gate: GateConfig { enabled: true, untangle_bin: owned("untangle") },
            context: ContextConfig {
                reference_max_depth: 2,
                reference_max_files: 30,
                history_max_commits: 20,
                history_max_days: 30,
                docs_patterns: owned_list(&["docs/**/*.md", "README.md", "ARCHITECTURE.md"]),
                docs_max_bytes: 50_000,
            },
            coordinator: CoordinatorConfig {
                max_rounds: 2,
                quorum_permille: 750,
                agent_timeout_secs: 90,
                devil_advocate: false,
                max_diff_lines_per_chunk: 1200,
                max_diff_chunks: 6,
                enable_structurizer: true,
            },
            verdict: VerdictConfig { block_on: owned("Critical") },
            rate_limits: RateLimitConfig { anthropic_rpm: 50, google_rpm: 60, openai_rpm: 60 },
            prechecks: PrecheckConfig::default(),
            task_packs: TaskPackConfig::default(),
            plugins: PluginsConfig {
                agents: owned_list(&["codex", "gemini", "open-code"]),
                paths: Vec::new(),
                agent_configs: configs,
            },
        };
        assert(strs(cfg.context.docs_patterns@) =~= seq!["docs/**/*.md"@, "README.md"@, "ARCHITECTURE.md"@]);
        assert(strs(cfg.plugins.agents@) =~= default_agents());
        assert(config_keys(cfg.plugins.agent_configs@) =~= builtin_agent_ids());
        assert(cfg.plugins.agent_configs@[0].1@.args =~= seq!["exec"@, "-"@, "--color"@, "never"@]);
        assert(cfg.plugins.agent_configs@[1].1@.args =~= seq!["-y"@, "-o"@, "json"@]);
        assert(cfg.plugins.agent_configs@[2].1@.args =~= seq![]);
        assert(cfg.plugins.agent_configs@[3].1@.args =~= seq!["run"@, "--model"@, "zai-coding-plan/glm-5.1"@, "--format"@, "json"@]);
        assert(cfg.plugins.agent_configs@[4].1@.args =~= seq!["run"@, "--model"@, "moonshot/kimi-k2-5"@, "--format"@, "json"@]);
        cfg
    }
}

impl CrucibleConfig {
    /// The built-in configuration with every known agent enabled, in id order.
    pub fn default_full() -> (r: Self)
        ensures
            strs(r.plugins.agents@) == config_keys(r.plugins.agent_configs@),
            config_keys(r.plugins.agent_configs@) == builtin_agent_ids(),
            r.verdict.block_on@ == "Critical"@,
            r.coordinator.quorum_permille == 750,
    {
        let mut cfg = Self::default();
        let mut agents: Vec<String> = Vec::new();
        let mut i: usize = 0;
        while i < cfg.plugins.agent_configs.len()
            invariant
                i <= cfg.plugins.agent_configs@.len(),
                agents@.len() == i,
                forall|k: int| 0 <= k < i ==> #[trigger] agents@[k]@ == cfg.plugins.agent_configs@[k].0@,
            decreases cfg.plugins.agent_configs.len() - i,
        {
            agents.push(cfg.plugins.agent_configs[i].0.clone());
            i += 1;
        }
        assert(strs(agents@) =~= config_keys(cfg.plugins.agent_configs@));
        cfg.plugins.agents = agents;
        cfg
    }
}

} // verus!
