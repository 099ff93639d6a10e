//! The project configuration model: projects, loops and their policies.
use vstd::prelude::*;

use crate::text::owned;

verus! {

/// Values that can be copied, with a guarantee that the copy agrees with
/// the value copied in every field.
pub trait Duplicate: Sized {
    /// Whether `other` agrees with `self` in every field.
    spec fn same_as(&self, other: &Self) -> bool;

    fn duplicate(&self) -> (r: Self)
        ensures
            self.same_as(&r),
    ;
}

impl Duplicate for String {
    open spec fn same_as(&self, other: &Self) -> bool {
        self@ == other@
    }

    fn duplicate(&self) -> (r: Self) {
        self.clone()
    }
}

impl<T: Duplicate> Duplicate for Option<T> {
    open spec fn same_as(&self, other: &Self) -> bool {
        match (self, other) {
            (Some(a), Some(b)) => a.same_as(b),
            (None, None) => true,
            _ => false,
        }
    }

    fn duplicate(&self) -> (r: Self) {
        match self {
            Some(x) => Some(x.duplicate()),
            None => None,
        }
    }
}

impl<T: Duplicate> Duplicate for Vec<T> {
    open spec fn same_as(&self, other: &Self) -> bool {
        &&& self@.len() == other@.len()
        &&& forall|i: int| 0 <= i < self@.len() ==> #[trigger] self@[i].same_as(&other@[i])
    }

    fn duplicate(&self) -> (r: Self) {
        let n = self.len();
        let mut r: Vec<T> = Vec::new();
        for i in 0..n
            invariant
                n == self@.len(),
                r@.len() == i,
                forall|j: int| 0 <= j < i ==> #[trigger] self@[j].same_as(&r@[j]),
        {
            r.push(self[i].duplicate());
        }
        r
    }
}

/// A project and the loops configured for it.
#[derive(Debug, Clone)]
pub struct Project {
    pub name: String,
    pub repository: Option<String>,
    pub default_branch: String,
    pub tech_stack: Vec<String>,
    pub docs: Vec<String>,
    pub source_paths: Vec<String>,
    pub external_data_sources: Vec<ExternalDataSource>,
    pub celld: CelldRuntime,
    pub loops: Vec<LoopDefinition>,
}

#[derive(Debug, Clone)]
pub struct ExternalDataSource {
    pub name: String,
    pub url: String,
    pub cache_path: String,
    pub schema_path: Option<String>,
}

/// Where the celld runtime of a project lives and how it names things.
#[derive(Debug, Clone)]
pub struct CelldRuntime {
    pub app_dir: String,
    pub bucket: Option<String>,
    pub public_url: Option<String>,
    pub internal_url: Option<String>,
    pub durable_object_class: String,
    pub artifact_bucket_prefix: String,
}

impl Default for CelldRuntime {
    fn default() -> (r: Self)
        ensures
            r.app_dir@ == "celld"@,
            r.bucket is None,
            r.public_url matches Some(u) && u@ == "http://127.0.0.1:9876"@,
            r.internal_url is None,
            r.durable_object_class@ == "AgentCell"@,
            r.artifact_bucket_prefix@ == "agents"@,
    {
        CelldRuntime {
            app_dir: owned("celld"),
            bucket: None,
            public_url: Some(owned("http://127.0.0.1:9876")),
            internal_url: None,
            durable_object_class: owned("AgentCell"),
            artifact_bucket_prefix: owned("agents"),
        }
    }
}

/// One repeatable loop: its goal, trigger, agent, verifiers and rules.
#[derive(Debug, Clone)]
pub struct LoopDefinition {
    pub name: String,
    pub kind: LoopKind,
    pub goal: String,
    pub summary: String,
    pub mode: LoopMode,
    pub trigger: Trigger,
    pub agent: AgentProfile,
    pub verifiers: Vec<Verifier>,
    pub state: StatePolicy,
    pub stop_rules: StopRules,
    pub escalation_rules: Vec<String>,
    pub steps: Vec<LoopStep>,
    pub decision_rules: Vec<DecisionRule>,
    pub budget: LoopBudget,
    pub safety: LoopSafety,
}

#[derive(Debug, Clone, Copy, PartialEq, Eq, Structural)]
pub enum LoopKind {
    DocsSync,
    ExternalDataSync,
    ArchitectureScan,
}

#[derive(Debug, Clone, Copy, PartialEq, Eq, Structural)]
pub enum LoopMode {
    ReportOnly,
    SafePr,
    HumanGated,
}

impl Default for LoopMode {
    fn default() -> (r: Self)
        ensures
            r == LoopMode::ReportOnly,
    {
        LoopMode::ReportOnly
    }
}

/// What starts a loop.
#[derive(Debug, Clone)]
pub enum Trigger {
    Cron { schedule: String },
    GitHubEvent { event: String },
    Manual,
    Resident { interval_seconds: u64 },
}

impl Default for Trigger {
    fn default() -> (r: Self)
        ensures
            r is Manual,
    {
        Trigger::Manual
    }
}

#[derive(Debug, Clone)]
pub struct AgentProfile {
    pub cell_id_template: String,
    pub sandbox_required: bool,
    pub allowed_tools: Vec<String>,
    pub human_gate: bool,
}

impl Default for AgentProfile {
    fn default() -> (r: Self)
        ensures
            r.cell_id_template@ == "{project}/{loop}"@,
            r.sandbox_required,
            r.allowed_tools@.len() == 0,
            !r.human_gate,
    {
        AgentProfile {
            cell_id_template: owned("{project}/{loop}"),
            sandbox_required: true,
            allowed_tools: Vec::new(),
            human_gate: false,
        }
    }
}

#[derive(Debug, Clone)]
pub struct Verifier {
    pub name: String,
    pub command: Vec<String>,
    pub timeout_seconds: u64,
}

#[derive(Debug, Clone)]
pub struct StatePolicy {
    pub hot_sqlite_scope: String,
    pub artifact_uri_prefix: String,
    pub hot_message_limit: u32,
}

impl Default for StatePolicy {
    fn default() -> (r: Self)
        ensures
            r.hot_sqlite_scope@ == "agent-cell"@,
            r.artifact_uri_prefix@ == "r2://agents/{agent}/artifacts/"@,
            r.hot_message_limit == 50,
    {
        StatePolicy {
            hot_sqlite_scope: owned("agent-cell"),
            artifact_uri_prefix: owned("r2://agents/{agent}/artifacts/"),
            hot_message_limit: default_hot_message_limit(),
        }
    }
}

#[derive(Debug, Clone, Copy)]
pub struct StopRules {
    pub max_steps: u32,
    pub max_consecutive_failures: u32,
    pub large_file_lines: u32,
}

impl Default for StopRules {
    fn default() -> (r: Self)
        ensures
            r.max_steps == 12,
            r.max_consecutive_failures == 3,
            r.large_file_lines == 500,
    {
        StopRules {
            max_steps: default_max_steps(),
            max_consecutive_failures: default_max_failures(),
            large_file_lines: default_large_file_lines(),
        }
    }
}

/// One stage of a loop and the paths and actions it may touch.
#[derive(Debug, Clone)]
pub struct LoopStep {
    pub id: String,
    pub title: String,
    pub purpose: String,
    pub command: Vec<String>,
    pub allowed_paths: Vec<String>,
    pub forbidden_actions: Vec<String>,
}

#[derive(Debug, Clone)]
pub struct DecisionRule {
    pub signal: String,
    pub action: String,
    pub evidence_required: Vec<String>,
}

#[derive(Debug, Clone, Copy)]
pub struct LoopBudget {
    pub max_duration_minutes: u32,
    pub max_tool_calls: u32,
}

impl Default for LoopBudget {
    fn default() -> (r: Self)
        ensures
            r.max_duration_minutes == 0,
            r.max_tool_calls == 0,
    {
        LoopBudget { max_duration_minutes: 0, max_tool_calls: 0 }
    }
}

#[derive(Debug, Clone)]
pub struct LoopSafety {
    pub protected_branches: Vec<String>,
    pub allowed_paths: Vec<String>,
    pub forbidden_actions: Vec<String>,
    pub cleanup_policy: String,
}

impl Default for LoopSafety {
    fn default() -> (r: Self)
        ensures
            r.protected_branches@.len() == 0,
            r.allowed_paths@.len() == 0,
            r.forbidden_actions@.len() == 0,
            r.cleanup_policy@.len() == 0,
    {
        LoopSafety {
            protected_branches: Vec::new(),
            allowed_paths: Vec::new(),
            forbidden_actions: Vec::new(),
            cleanup_policy: String::new(),
        }
    }
}

/// One execution of a loop. Identifiers are the 128-bit values of UUIDs and
/// times are Unix timestamps in nanoseconds.
#[derive(Debug, Clone)]
pub struct LoopRun {
    pub id: u128,
    pub project: String,
    pub loop_name: String,
    pub status: RunStatus,
    pub started_at: i64,
    pub ended_at: Option<i64>,
    pub agent_cell_id: String,
    pub verifier_results: Vec<VerifierResult>,
    pub artifacts: Vec<ArtifactRef>,
}

#[derive(Debug, Clone, Copy, PartialEq, Eq, Structural)]
pub enum RunStatus {
    Queued,
    Running,
    Passed,
    Failed,
    NeedsHuman,
}

#[derive(Debug, Clone)]
pub struct VerifierResult {
    pub name: String,
    pub exit_code: i32,
    pub summary: String,
}

#[derive(Debug, Clone)]
pub struct ArtifactRef {
    pub id: String,
    pub kind: String,
    pub storage_uri: String,
    pub sha256: Option<String>,
    pub bytes: u64,
    pub preview: Option<String>,
}

/// The branch a project uses when its configuration names none.
pub fn default_branch() -> (r: String)
    ensures
        r@ == "main"@,
{
    owned("main")
}

pub fn default_timeout_seconds() -> (r: u64)
    ensures
        r == 300,
{
    300
}

pub fn default_hot_message_limit() -> (r: u32)
    ensures
        r == 50,
{
    50
}

pub fn default_max_steps() -> (r: u32)
    ensures
        r == 12,
{
    12
}

pub fn default_max_failures() -> (r: u32)
    ensures
        r == 3,
{
    3
}

pub fn default_large_file_lines() -> (r: u32)
    ensures
        r == 500,
{
    500
}

impl Duplicate for ExternalDataSource {
    open spec fn same_as(&self, other: &Self) -> bool {
        &&& self.name.same_as(&other.name)
        &&& self.url.same_as(&other.url)
        &&& self.cache_path.same_as(&other.cache_path)
        &&& self.schema_path.same_as(&other.schema_path)
    }

    fn duplicate(&self) -> (r: Self) {
        ExternalDataSource {
            name: self.name.duplicate(),
            url: self.url.duplicate(),
            cache_path: self.cache_path.duplicate(),
            schema_path: self.schema_path.duplicate(),
        }
    }
}

impl Duplicate for CelldRuntime {
    open spec fn same_as(&self, other: &Self) -> bool {
        &&& self.app_dir.same_as(&other.app_dir)
        &&& self.bucket.same_as(&other.bucket)
        &&& self.public_url.same_as(&other.public_url)
        &&& self.internal_url.same_as(&other.internal_url)
        &&& self.durable_object_class.same_as(&other.durable_object_class)
        &&& self.artifact_bucket_prefix.same_as(&other.artifact_bucket_prefix)
    }

    fn duplicate(&self) -> (r: Self) {
        CelldRuntime {
            app_dir: self.app_dir.duplicate(),
            bucket: self.bucket.duplicate(),
            public_url: self.public_url.duplicate(),
            internal_url: self.internal_url.duplicate(),
            durable_object_class: self.durable_object_class.duplicate(),
            artifact_bucket_prefix: self.artifact_bucket_prefix.duplicate(),
        }
    }
}

impl Duplicate for AgentProfile {
    open spec fn same_as(&self, other: &Self) -> bool {
        &&& self.cell_id_template.same_as(&other.cell_id_template)
        &&& self.sandbox_required == other.sandbox_required
        &&& self.allowed_tools.same_as(&other.allowed_tools)
        &&& self.human_gate == other.human_gate
    }

    fn duplicate(&self) -> (r: Self) {
        AgentProfile {
            cell_id_template: self.cell_id_template.duplicate(),
            sandbox_required: self.sandbox_required,
            allowed_tools: self.allowed_tools.duplicate(),
            human_gate: self.human_gate,
        }
    }
}

impl Duplicate for Trigger {
    open spec fn same_as(&self, other: &Self) -> bool {
        match (self, other) {
            (Trigger::Cron { schedule: a }, Trigger::Cron { schedule: b }) => a@ == b@,
            (Trigger::GitHubEvent { event: a }, Trigger::GitHubEvent { event: b }) => a@ == b@,
            (Trigger::Manual, Trigger::Manual) => true,
            (
                Trigger::Resident { interval_seconds: a },
                Trigger::Resident { interval_seconds: b },
            ) => a == b,
            _ => false,
        }
    }

    fn duplicate(&self) -> (r: Self) {
        match self {
            Trigger::Cron { schedule } => Trigger::Cron { schedule: schedule.duplicate() },
            Trigger::GitHubEvent { event } => Trigger::GitHubEvent { event: event.duplicate() },
            Trigger::Manual => Trigger::Manual,
            Trigger::Resident { interval_seconds } => Trigger::Resident {
                interval_seconds: *interval_seconds,
            },
        }
    }
}

impl Duplicate for Verifier {
    open spec fn same_as(&self, other: &Self) -> bool {
        &&& self.name.same_as(&other.name)
        &&& self.command.same_as(&other.command)
        &&& self.timeout_seconds == other.timeout_seconds
    }

    fn duplicate(&self) -> (r: Self) {
        Verifier {
            name: self.name.duplicate(),
            command: self.command.duplicate(),
            timeout_seconds: self.timeout_seconds,
        }
    }
}

impl Duplicate for StatePolicy {
    open spec fn same_as(&self, other: &Self) -> bool {
        &&& self.hot_sqlite_scope.same_as(&other.hot_sqlite_scope)
        &&& self.artifact_uri_prefix.same_as(&other.artifact_uri_prefix)
        &&& self.hot_message_limit == other.hot_message_limit
    }

    fn duplicate(&self) -> (r: Self) {
        StatePolicy {
            hot_sqlite_scope: self.hot_sqlite_scope.duplicate(),
            artifact_uri_prefix: self.artifact_uri_prefix.duplicate(),
            hot_message_limit: self.hot_message_limit,
        }
    }
}

impl Duplicate for LoopStep {
    open spec fn same_as(&self, other: &Self) -> bool {
        &&& self.id.same_as(&other.id)
        &&& self.title.same_as(&other.title)
        &&& self.purpose.same_as(&other.purpose)
        &&& self.command.same_as(&other.command)
        &&& self.allowed_paths.same_as(&other.allowed_paths)
        &&& self.forbidden_actions.same_as(&other.forbidden_actions)
    }

    fn duplicate(&self) -> (r: Self) {
        LoopStep {
            id: self.id.duplicate(),
            title: self.title.duplicate(),
            purpose: self.purpose.duplicate(),
            command: self.command.duplicate(),
            allowed_paths: self.allowed_paths.duplicate(),
            forbidden_actions: self.forbidden_actions.duplicate(),
        }
    }
}

impl Duplicate for DecisionRule {
    open spec fn same_as(&self, other: &Self) -> bool {
        &&& self.signal.same_as(&other.signal)
        &&& self.action.same_as(&other.action)
        &&& self.evidence_required.same_as(&other.evidence_required)
    }

    fn duplicate(&self) -> (r: Self) {
        DecisionRule {
            signal: self.signal.duplicate(),
            action: self.action.duplicate(),
            evidence_required: self.evidence_required.duplicate(),
        }
    }
}

impl Duplicate for LoopSafety {
    open spec fn same_as(&self, other: &Self) -> bool {
        &&& self.protected_branches.same_as(&other.protected_branches)
        &&& self.allowed_paths.same_as(&other.allowed_paths)
        &&& self.forbidden_actions.same_as(&other.forbidden_actions)
        &&& self.cleanup_policy.same_as(&other.cleanup_policy)
    }

    fn duplicate(&self) -> (r: Self) {
        LoopSafety {
            protected_branches: self.protected_branches.duplicate(),
            allowed_paths: self.allowed_paths.duplicate(),
            forbidden_actions: self.forbidden_actions.duplicate(),
            cleanup_policy: self.cleanup_policy.duplicate(),
        }
    }
}

impl Duplicate for LoopDefinition {
    open spec fn same_as(&self, other: &Self) -> bool {
        &&& self.name.same_as(&other.name)
        &&& self.kind == other.kind
        &&& self.goal.same_as(&other.goal)
        &&& self.summary.same_as(&other.summary)
        &&& self.mode == other.mode
        &&& self.trigger.same_as(&other.trigger)
        &&& self.agent.same_as(&other.agent)
        &&& self.verifiers.same_as(&other.verifiers)
        &&& self.state.same_as(&other.state)
        &&& self.stop_rules == other.stop_rules
        &&& self.escalation_rules.same_as(&other.escalation_rules)
        &&& self.steps.same_as(&other.steps)
        &&& self.decision_rules.same_as(&other.decision_rules)
        &&& self.budget == other.budget
        &&& self.safety.same_as(&other.safety)
    }

    fn duplicate(&self) -> (r: Self) {
        LoopDefinition {
            name: self.name.duplicate(),
            kind: self.kind,
            goal: self.goal.duplicate(),
            summary: self.summary.duplicate(),
            mode: self.mode,
            trigger: self.trigger.duplicate(),
            agent: self.agent.duplicate(),
            verifiers: self.verifiers.duplicate(),
            state: self.state.duplicate(),
            stop_rules: self.stop_rules,
            escalation_rules: self.escalation_rules.duplicate(),
            steps: self.steps.duplicate(),
            decision_rules: self.decision_rules.duplicate(),
            budget: self.budget,
            safety: self.safety.duplicate(),
        }
    }
}

impl Duplicate for Project {
    open spec fn same_as(&self, other: &Self) -> bool {
        &&& self.name.same_as(&other.name)
        &&& self.repository.same_as(&other.repository)
        &&& self.default_branch.same_as(&other.default_branch)
        &&& self.tech_stack.same_as(&other.tech_stack)
        &&& self.docs.same_as(&other.docs)
        &&& self.source_paths.same_as(&other.source_paths)
        &&& self.external_data_sources.same_as(&other.external_data_sources)
        &&& self.celld.same_as(&other.celld)
        &&& self.loops.same_as(&other.loops)
    }

    fn duplicate(&self) -> (r: Self) {
        Project {
            name: self.name.duplicate(),
            repository: self.repository.duplicate(),
            default_branch: self.default_branch.duplicate(),
            tech_stack: self.tech_stack.duplicate(),
            docs: self.docs.duplicate(),
            source_paths: self.source_paths.duplicate(),
            external_data_sources: self.external_data_sources.duplicate(),
            celld: self.celld.duplicate(),
            loops: self.loops.duplicate(),
        }
    }
}

} // verus!
