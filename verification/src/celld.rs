//! The bridge to celld: what an agent cell is, how it is named, where its
//! artifacts go, and which celld endpoint serves each request.
use vstd::prelude::*;

use crate::error::{config_error, Error};
use crate::models::{LoopDefinition, Project};
use crate::text::{
    concat, concat3, lemma_replace_at_start, lemma_replace_not_at_start,
    lemma_replace_prefix_free, occurs_at, owned, replace, replace_str, string_views,
};
use crate::urls::{push_url_segments, url_with_segments};

verus! {

/// Declares `serde_json::Value`, the body of an inbox event, so that the
/// library can carry it; nothing is claimed of what a value holds.
#[verifier::external_type_specification]
#[verifier::external_body]
pub struct ExJsonValue(serde_json::Value);

/// How celld holds an agent's state and where untrusted work runs.
#[derive(Debug, Clone)]
pub struct CelldFoundation {
    pub role: String,
    pub durable_object_class: String,
    pub state_strategy: StateStrategy,
    pub sandbox_boundary: SandboxBoundary,
    pub local_dev_command: String,
    pub deploy_command: Option<String>,
}

#[derive(Debug, Clone)]
pub struct StateStrategy {
    pub hot_state: Vec<String>,
    pub cold_artifacts: Vec<String>,
    pub rule: String,
}

#[derive(Debug, Clone)]
pub struct SandboxBoundary {
    pub celld_handles: Vec<String>,
    pub external_sandbox_handles: Vec<String>,
    pub warning: String,
}

/// Where an artifact produced by an agent cell is kept.
#[derive(Debug, Clone, Copy, PartialEq, Eq, Structural)]
pub enum ArtifactPlacement {
    CellSqlite,
    ObjectStorage,
}

/// The foundation that celld gives the agent cells of `p`.
pub open spec fn foundation_matches(p: Project, f: CelldFoundation) -> bool {
    &&& f.role@ == "per-agent durable brain, inbox, scheduler, and state ledger"@
    &&& f.durable_object_class@ == p.celld.durable_object_class@
    &&& string_views(f.state_strategy.hot_state@) == seq![
        "agent identity and policy"@,
        "current plan, inbox, checkpoints, and short memory summaries"@,
        "artifact metadata and object-storage pointers"@,
    ]
    &&& string_views(f.state_strategy.cold_artifacts@) == seq![
        "generated files, patches, repository snapshots, and long logs"@,
        "large model/tool outputs and external data snapshots"@,
        "sandbox workspaces and build artifacts"@,
    ]
    &&& f.state_strategy.rule@
        == "cell SQLite stores who the agent is, what it is doing, and where artifacts live; object storage stores the artifacts themselves"@
    &&& string_views(f.sandbox_boundary.celld_handles@) == seq![
        "named agent cells"@,
        "serialized events"@,
        "durable SQLite state"@,
        "alarms and inbox wakeups"@,
    ]
    &&& string_views(f.sandbox_boundary.external_sandbox_handles@) == seq![
        "untrusted code execution"@,
        "shell commands"@,
        "dependency installation"@,
        "workspace file-system mutation"@,
    ]
    &&& f.sandbox_boundary.warning@
        == "celld is not a hostile multi-tenant sandbox; execute untrusted agent actions in a separate sandbox and write results back to the cell"@
    &&& f.local_dev_command@ == "cd "@ + p.celld.app_dir@ + " && celld dev"@
    &&& match p.celld.bucket {
        Some(b) => f.deploy_command matches Some(c) && c@ == "cd "@ + p.celld.app_dir@
            + " && celld deploy . --bucket "@ + b@,
        None => f.deploy_command is None,
    }
}

/// Describes how celld runs the agent cells of `project`.
pub fn foundation(project: &Project) -> (f: CelldFoundation)
    ensures
        foundation_matches(*project, f),
{
    let hot_state = vec![
        owned("agent identity and policy"),
        owned("current plan, inbox, checkpoints, and short memory summaries"),
        owned("artifact metadata and object-storage pointers"),
    ];
    let cold_artifacts = vec![
        owned("generated files, patches, repository snapshots, and long logs"),
        owned("large model/tool outputs and external data snapshots"),
        owned("sandbox workspaces and build artifacts"),
    ];
    let celld_handles = vec![
        owned("named agent cells"),
        owned("serialized events"),
        owned("durable SQLite state"),
        owned("alarms and inbox wakeups"),
    ];
    let external_sandbox_handles = vec![
        owned("untrusted code execution"),
        owned("shell commands"),
        owned("dependency installation"),
        owned("workspace file-system mutation"),
    ];
    let app_dir = project.celld.app_dir.as_str();
    let deploy_command = match &project.celld.bucket {
        Some(bucket) => {
            let head = concat3("cd ", app_dir, " && celld deploy . --bucket ");
            Some(concat(head.as_str(), bucket.as_str()))
        },
        None => None,
    };
    let f = CelldFoundation {
        role: owned("per-agent durable brain, inbox, scheduler, and state ledger"),
        durable_object_class: project.celld.durable_object_class.clone(),
        state_strategy: StateStrategy {
            hot_state,
            cold_artifacts,
            rule: owned(
                "cell SQLite stores who the agent is, what it is doing, and where artifacts live; object storage stores the artifacts themselves",
            ),
        },
        sandbox_boundary: SandboxBoundary {
            celld_handles,
            external_sandbox_handles,
            warning: owned(
                "celld is not a hostile multi-tenant sandbox; execute untrusted agent actions in a separate sandbox and write results back to the cell",
            ),
        },
        local_dev_command: concat3("cd ", app_dir, " && celld dev"),
        deploy_command,
    };
    assert(string_views(f.state_strategy.hot_state@) =~= seq![
        "agent identity and policy"@,
        "current plan, inbox, checkpoints, and short memory summaries"@,
        "artifact metadata and object-storage pointers"@,
    ]);
    assert(string_views(f.state_strategy.cold_artifacts@) =~= seq![
        "generated files, patches, repository snapshots, and long logs"@,
        "large model/tool outputs and external data snapshots"@,
        "sandbox workspaces and build artifacts"@,
    ]);
    assert(string_views(f.sandbox_boundary.celld_handles@) =~= seq![
        "named agent cells"@,
        "serialized events"@,
        "durable SQLite state"@,
        "alarms and inbox wakeups"@,
    ]);
    assert(string_views(f.sandbox_boundary.external_sandbox_handles@) =~= seq![
        "untrusted code execution"@,
        "shell commands"@,
        "dependency installation"@,
        "workspace file-system mutation"@,
    ]);
    f
}

/// The id of the agent cell that runs `loop_def` of `project` for the
/// agent `agent_key`: the loop's cell id template with `{project}`,
/// `{loop}` and `{agent}` replaced, in that order.
pub open spec fn cell_id_of(
    template: Seq<char>,
    project_name: Seq<char>,
    loop_name: Seq<char>,
    agent_key: Seq<char>,
) -> Seq<char> {
    replace(
        replace(replace(template, "{project}"@, project_name), "{loop}"@, loop_name),
        "{agent}"@,
        agent_key,
    )
}

pub fn agent_cell_id(project: &Project, loop_def: &LoopDefinition, agent_key: &str) -> (id: String)
    ensures
        id@ == cell_id_of(
            loop_def.agent.cell_id_template@,
            project.name@,
            loop_def.name@,
            agent_key@,
        ),
{
    proof {
        reveal_strlit("{project}");
        reveal_strlit("{loop}");
        reveal_strlit("{agent}");
    }
    let a = replace_str(loop_def.agent.cell_id_template.as_str(), "{project}", project.name.as_str());
    let b = replace_str(a.as_str(), "{loop}", loop_def.name.as_str());
    replace_str(b.as_str(), "{agent}", agent_key)
}

/// Under the per-agent template `{project}/{loop}/{agent}`, an agent cell
/// id is the project, loop and agent names joined by `/`, when the project
/// and loop names hold no `{`.
pub proof fn law_per_agent_cell_id(project: Seq<char>, loop_name: Seq<char>, agent: Seq<char>)
    requires
        forall|i: int| 0 <= i < project.len() ==> project[i] != '{',
        forall|i: int| 0 <= i < loop_name.len() ==> loop_name[i] != '{',
    ensures
        cell_id_of("{project}/{loop}/{agent}"@, project, loop_name, agent) == project + "/"@
            + loop_name + "/"@ + agent,
{
    reveal_strlit("{project}/{loop}/{agent}");
    reveal_strlit("{project}");
    reveal_strlit("{loop}");
    reveal_strlit("{agent}");
    reveal_strlit("/");
    let pp = "{project}"@;
    let pl = "{loop}"@;
    let pa = "{agent}"@;
    let sl = "/"@;
    let empty = Seq::<char>::empty();
    let loop_tail = seq!['l', 'o', 'o', 'p', '}', '/'];
    let agent_tail = seq!['a', 'g', 'e', 'n', 't', '}'];
    assert("{project}/{loop}/{agent}"@ =~= pp + (sl + (pl + sl + pa)));
    // The project placeholder.
    lemma_replace_at_start(pp, sl + (pl + sl + pa), project);
    lemma_replace_prefix_free(sl, pl + sl + pa, pp, project);
    let y = pl + sl + pa;
    assert(!occurs_at(y, pp, 0)) by {
        assert(y.subrange(0, 9)[1] == y[1]);
    }
    lemma_replace_not_at_start(y, pp, project);
    assert(y.drop_first() =~= loop_tail + pa);
    lemma_replace_prefix_free(loop_tail, pa, pp, project);
    lemma_replace_not_at_start(pa, pp, project);
    assert(pa.drop_first() =~= agent_tail + empty);
    lemma_replace_prefix_free(agent_tail, empty, pp, project);
    assert(agent_tail + empty =~= agent_tail);
    let r1 = replace("{project}/{loop}/{agent}"@, pp, project);
    assert(r1 =~= project + sl + (pl + (sl + pa))) by {
        assert(seq![pa[0]] + agent_tail =~= pa);
        assert(seq![y[0]] + (loop_tail + pa) =~= y);
    }
    // The loop placeholder.
    lemma_replace_prefix_free(project + sl, pl + (sl + pa), pl, loop_name);
    assert(r1 =~= (project + sl) + (pl + (sl + pa)));
    lemma_replace_at_start(pl, sl + pa, loop_name);
    lemma_replace_prefix_free(sl, pa, pl, loop_name);
    assert(!occurs_at(pa, pl, 0)) by {
        assert(pa.subrange(0, 6)[1] == pa[1]);
    }
    lemma_replace_not_at_start(pa, pl, loop_name);
    lemma_replace_prefix_free(agent_tail, empty, pl, loop_name);
    let r2 = replace(r1, pl, loop_name);
    assert(r2 =~= (project + sl + loop_name + sl) + pa) by {
        assert(seq![pa[0]] + agent_tail =~= pa);
    }
    // The agent placeholder.
    lemma_replace_prefix_free(project + sl + loop_name + sl, pa, pa, agent);
    assert(pa =~= pa + empty);
    lemma_replace_at_start(pa, empty, agent);
}

/// Artifacts larger than 512 KiB, shared ones, and ones the next decision
/// does not need go to object storage; the rest stay in the cell's SQLite.
pub open spec fn placement_of(bytes: u64, needed_for_next_decision: bool, shared: bool) -> ArtifactPlacement {
    if bytes > 512 * 1024 || shared || !needed_for_next_decision {
        ArtifactPlacement::ObjectStorage
    } else {
        ArtifactPlacement::CellSqlite
    }
}

pub fn artifact_placement(bytes: u64, needed_for_next_decision: bool, shared: bool) -> (p: ArtifactPlacement)
    ensures
        p == placement_of(bytes, needed_for_next_decision, shared),
{
    if bytes > 512 * 1024 || shared || !needed_for_next_decision {
        ArtifactPlacement::ObjectStorage
    } else {
        ArtifactPlacement::CellSqlite
    }
}

/// Hot-state counters that an agent cell reports.
#[derive(Debug, Clone, Copy)]
pub struct CellState {
    pub inbox: u32,
    pub tasks: u32,
    pub artifacts: u32,
}

/// An event for an agent cell's inbox. `wake_at` is a Unix timestamp in
/// nanoseconds.
#[derive(Debug)]
pub struct InboxEvent {
    pub id: Option<String>,
    pub source: String,
    pub body: serde_json::Value,
    pub wake_at: Option<i64>,
}

/// The source named by an inbox event that does not name one.
pub fn default_event_source() -> (s: String)
    ensures
        s@ == "looptask"@,
{
    owned("looptask")
}

#[derive(Debug, Clone)]
pub struct InboxAck {
    pub accepted: bool,
    pub id: String,
}

/// Artifact metadata recorded against an agent cell.
#[derive(Debug, Clone)]
pub struct ArtifactRecord {
    pub id: Option<String>,
    pub kind: String,
    pub storage_uri: String,
    pub sha256: Option<String>,
    pub bytes: u64,
    pub preview: Option<String>,
}

#[derive(Debug, Clone)]
pub struct ArtifactAck {
    pub recorded: bool,
    pub id: String,
}

#[derive(Debug, Clone, Copy)]
pub struct ResidentCancelAck {
    pub cancelled: u32,
}

/// The celld URL through which `p` is reached: the internal URL when set,
/// else the public one.
pub open spec fn base_url_of(p: Project) -> Option<Seq<char>> {
    match p.celld.internal_url {
        Some(u) => Some(u@),
        None => match p.celld.public_url {
            Some(u) => Some(u@),
            None => None,
        },
    }
}

/// The requests that an agent cell answers.
#[derive(Debug, Clone, Copy, PartialEq, Eq, Structural)]
pub enum CellRequest {
    State,
    Inbox,
    Artifacts,
    ResidentCancel,
}

/// The path segments, below the celld base URL, of a request to the agent
/// cell `agent_cell_id`. The id is one segment, however many `/` it holds.
pub open spec fn cell_path_of(agent_cell_id: Seq<char>, request: CellRequest) -> Seq<Seq<char>> {
    seq!["agents"@, agent_cell_id] + match request {
        CellRequest::State => seq!["state"@],
        CellRequest::Inbox => seq!["inbox"@],
        CellRequest::Artifacts => seq!["artifacts"@],
        CellRequest::ResidentCancel => seq!["resident"@, "cancel"@],
    }
}

pub fn cell_path(agent_cell_id: &str, request: CellRequest) -> (r: Vec<String>)
    ensures
        string_views(r@) == cell_path_of(agent_cell_id@, request),
{
    let mut r = vec![owned("agents"), owned(agent_cell_id)];
    match request {
        CellRequest::State => r.push(owned("state")),
        CellRequest::Inbox => r.push(owned("inbox")),
        CellRequest::Artifacts => r.push(owned("artifacts")),
        CellRequest::ResidentCancel => {
            r.push(owned("resident"));
            r.push(owned("cancel"));
        },
    }
    assert(string_views(r@) =~= cell_path_of(agent_cell_id@, request));
    r
}

pub const NO_CELLD_URL: &'static str = "project.celld.internalUrl or publicUrl is required to reach celld";

/// Where a project's celld app is reached: its base URL.
#[derive(Debug, Clone)]
pub struct CelldClient {
    base_url: String,
}

impl CelldClient {
    pub closed spec fn base_url_view(&self) -> Seq<char> {
        self.base_url@
    }

    /// The client of the celld app that serves `project`, preferring the
    /// internal (service-to-service) URL over the public one.
    pub fn for_project(project: &Project) -> (r: Result<CelldClient, Error>)
        ensures
            match base_url_of(*project) {
                Some(u) => r matches Ok(c) && c.base_url_view() == u,
                None => r matches Err(Error::Config(m)) && m@ == NO_CELLD_URL@,
            },
    {
        let base_url = match &project.celld.internal_url {
            Some(u) => u.clone(),
            None => match &project.celld.public_url {
                Some(u) => u.clone(),
                None => return Err(config_error(NO_CELLD_URL)),
            },
        };
        Ok(CelldClient { base_url })
    }

    /// The client of the celld app at `base_url`.
    pub fn new(base_url: String) -> (r: CelldClient)
        ensures
            r.base_url_view() == base_url@,
    {
        CelldClient { base_url }
    }

    pub fn base_url(&self) -> (r: &String)
        ensures
            r@ == self.base_url_view(),
    {
        &self.base_url
    }

    /// The URL of a request to an agent cell: the request's path segments
    /// pushed onto the base URL.
    pub fn cell_url(&self, agent_cell_id: &str, request: CellRequest) -> (r: Result<String, Error>)
        ensures
            match url_with_segments(self.base_url_view(), cell_path_of(agent_cell_id@, request)) {
                Ok(u) => r matches Ok(s) && s@ == u,
                Err(Some(m)) => r matches Err(Error::Config(t)) && t@ == "invalid celld base url: "@
                    + m,
                Err(None) => r matches Err(Error::Config(t)) && t@
                    == "celld base url must be an absolute http(s) URL"@,
            },
    {
        let segments = cell_path(agent_cell_id, request);
        cell_url_from(push_url_segments(self.base_url.as_str(), &segments))
    }
}

/// The URL of a request to an agent cell, given what pushing the request's
/// path segments onto the celld base URL gave.
pub fn cell_url_from(pushed: Result<String, Option<String>>) -> (r: Result<String, Error>)
    ensures
        match pushed {
            Ok(u) => r matches Ok(s) && s@ == u@,
            Err(Some(m)) => r matches Err(Error::Config(t)) && t@ == "invalid celld base url: "@
                + m@,
            Err(None) => r matches Err(Error::Config(t)) && t@
                == "celld base url must be an absolute http(s) URL"@,
        },
{
    match pushed {
        Ok(u) => Ok(u),
        Err(Some(m)) => Err(Error::Config(concat("invalid celld base url: ", m.as_str()))),
        Err(None) => Err(config_error("celld base url must be an absolute http(s) URL")),
    }
}

/// The error of a celld request that did not reach celld, given the
/// failure's message.
pub fn celld_request_error(message: &str) -> (e: Error)
    ensures
        e matches Error::Celld(m) && m@ == "failed to reach celld: "@ + message@,
{
    Error::Celld(concat("failed to reach celld: ", message))
}

/// The error of a non-success answer of celld, given its status line and
/// body.
pub fn celld_status_error(status: &str, body: &str) -> (e: Error)
    ensures
        e matches Error::Celld(m) && m@ == "celld responded with "@ + status@ + ": "@ + body@,
{
    let head = concat3("celld responded with ", status, ": ");
    Error::Celld(concat(head.as_str(), body))
}

/// The error of a celld answer whose body is not what was expected, given
/// the decoding failure's message.
pub fn celld_body_error(message: &str) -> (e: Error)
    ensures
        e matches Error::Celld(m) && m@ == "invalid celld response body: "@ + message@,
{
    Error::Celld(concat("invalid celld response body: ", message))
}

} // verus!
