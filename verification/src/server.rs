//! The decisions behind the HTTP API: planning and dispatching loops,
//! stopping resident loops, serving static assets, and reading the session
//! cookie and client address from request headers.
use vstd::prelude::*;

use crate::auth::{uuid_string, uuid_text, PublicUser, SessionResponse};
use crate::celld::{agent_cell_id, cell_id_of, foundation, foundation_matches, CelldFoundation, InboxAck};
use crate::error::{config_error, description_of, Error};
use crate::loop_catalog::position_of;
use crate::models::{Duplicate, LoopDefinition, LoopKind, LoopMode, Project, Trigger};
use crate::persistence::PreparedRun;
use crate::text::{
    chars_of, concat, concat3, is_blank, is_white_space, owned, split, split_chars, string_of,
    trim, trim_chars, trim_end, trim_start,
    views,
};

verus! {

#[derive(Debug, Clone)]
pub struct LoopPlanRequest {
    pub project: Project,
    pub loop_name: String,
    pub agent_key: String,
    pub idempotency_key: Option<String>,
}

#[derive(Debug, Clone)]
pub struct LoopPlanResponse {
    pub accepted: bool,
    pub reason: String,
    pub loop_plan: Option<LoopPlan>,
}

/// The answer to a dispatch request. `run_id` is the 128-bit value of the
/// run's UUID.
#[derive(Debug, Clone)]
pub struct LoopDispatchResponse {
    pub accepted: bool,
    pub reason: String,
    pub loop_plan: Option<LoopPlan>,
    pub dispatch: Option<InboxAck>,
    pub run_id: Option<u128>,
    pub deduplicated: bool,
}

/// Which agent cell a loop goes to and how celld will run it.
#[derive(Debug, Clone)]
pub struct LoopPlan {
    pub project: String,
    pub loop_def: LoopDefinition,
    pub agent_cell_id: String,
    pub celld: CelldFoundation,
}

#[derive(Debug, Clone)]
pub struct CelldAgentRequest {
    pub project: Project,
    pub agent_cell_id: String,
}

#[derive(Debug)]
pub struct CelldInboxRequest {
    pub project: Project,
    pub agent_cell_id: String,
    pub event: crate::celld::InboxEvent,
}

#[derive(Debug, Clone)]
pub struct CelldArtifactRequest {
    pub project: Project,
    pub agent_cell_id: String,
    pub artifact: crate::celld::ArtifactRecord,
}

/// The agent key of a plan request that names none.
pub fn default_agent_key() -> (r: String)
    ensures
        r@ == "default"@,
{
    owned("default")
}

// ---------------------------------------------------------------------------
// Planning
// ---------------------------------------------------------------------------

pub const RESIDENT_INTERVAL: &'static str = "resident interval must be between 60 seconds and 365 days";

/// Whether a loop's trigger is acceptable: a resident loop must run every
/// 60 seconds to 365 days.
pub open spec fn trigger_ok(t: Trigger) -> bool {
    match t {
        Trigger::Resident { interval_seconds } => 60 <= interval_seconds
            && interval_seconds <= 31_536_000,
        _ => true,
    }
}

/// The loop that a plan for `loop_name` uses: the first loop of the project
/// with that name. The error is `loop '{name}' not found` when there is
/// none, and the resident-interval message when its trigger is not
/// acceptable.
pub open spec fn plan_problem(project: Project, loop_name: Seq<char>) -> Option<Seq<char>> {
    let i = position_of(project.loops@, loop_name);
    if i < 0 {
        Some("loop '"@ + loop_name + "' not found"@)
    } else if !trigger_ok(project.loops@[i].trigger) {
        Some(RESIDENT_INTERVAL@)
    } else {
        None
    }
}

/// The index of the loop that a plan for `loop_name` uses, or the reason
/// why there is none.
pub fn plan_loop_index(project: &Project, loop_name: &str) -> (r: Result<usize, String>)
    ensures
        match plan_problem(*project, loop_name@) {
            None => r matches Ok(i) && i == position_of(project.loops@, loop_name@) && i
                < project.loops@.len(),
            Some(m) => r matches Err(t) && t@ == m,
        },
{
    let found = crate::loop_catalog::find_loop_index(&project.loops, loop_name);
    let i = match found {
        Some(i) => i,
        None => return Err(concat3("loop '", loop_name, "' not found")),
    };
    if let Trigger::Resident { interval_seconds } = &project.loops[i].trigger {
        if !(60 <= *interval_seconds && *interval_seconds <= 31_536_000) {
            return Err(owned(RESIDENT_INTERVAL));
        }
    }
    Ok(i)
}

/// Resolves a loop by name for planning: a copy of the first loop with that
/// name, or the reason why it cannot be planned.
pub fn build_loop_plan(project: &Project, loop_name: &str) -> (r: Result<LoopDefinition, String>)
    ensures
        match plan_problem(*project, loop_name@) {
            None => r matches Ok(d) && project.loops@[position_of(
                project.loops@,
                loop_name@,
            )].same_as(&d),
            Some(m) => r matches Err(t) && t@ == m,
        },
{
    let i = plan_loop_index(project, loop_name)?;
    Ok(project.loops[i].duplicate())
}

/// The plan of `d` for the loop request: the project's name, a copy of the
/// loop, the agent cell that runs it, and the project's celld foundation.
pub open spec fn plan_matches(project: Project, d: LoopDefinition, agent_key: Seq<char>, p: LoopPlan) -> bool {
    &&& p.project@ == project.name@
    &&& d.same_as(&p.loop_def)
    &&& p.agent_cell_id@ == cell_id_of(
        d.agent.cell_id_template@,
        project.name@,
        d.name@,
        agent_key,
    )
    &&& foundation_matches(project, p.celld)
}

fn make_plan(project: &Project, loop_def: &LoopDefinition, agent_key: &str) -> (p: LoopPlan)
    ensures
        plan_matches(*project, *loop_def, agent_key@, p),
{
    LoopPlan {
        project: project.name.clone(),
        loop_def: loop_def.duplicate(),
        agent_cell_id: agent_cell_id(project, loop_def, agent_key),
        celld: foundation(project),
    }
}

/// The answer to a plan request: refused with the reason of the problem, or
/// accepted with the plan of the project's loop of that name.
pub open spec fn plan_answer(request: LoopPlanRequest, r: LoopPlanResponse) -> bool {
    match plan_problem(request.project, request.loop_name@) {
        Some(m) => !r.accepted && r.reason@ == m && r.loop_plan is None,
        None => r.loop_plan matches Some(p) && plan_matches(
            request.project,
            request.project.loops@[position_of(request.project.loops@, request.loop_name@)],
            request.agent_key@,
            p,
        ) && r.accepted && r.reason@ == "loop can be dispatched to a celld-backed agent cell"@,
    }
}

pub fn plan_response(request: &LoopPlanRequest) -> (r: LoopPlanResponse)
    ensures
        plan_answer(*request, r),
{
    let i = match plan_loop_index(&request.project, request.loop_name.as_str()) {
        Ok(i) => i,
        Err(reason) => return LoopPlanResponse { accepted: false, reason, loop_plan: None },
    };
    let plan = make_plan(&request.project, &request.project.loops[i], request.agent_key.as_str());
    LoopPlanResponse {
        accepted: true,
        reason: owned("loop can be dispatched to a celld-backed agent cell"),
        loop_plan: Some(plan),
    }
}

// ---------------------------------------------------------------------------
// Dispatching
// ---------------------------------------------------------------------------

/// The body of the event that wakes an agent cell to run a loop.
#[derive(Debug, Clone)]
pub struct DispatchBody {
    pub loop_name: String,
    pub kind: LoopKind,
    pub goal: String,
    pub mode: LoopMode,
    /// The interval of a resident loop, in seconds.
    pub resident_interval_seconds: Option<u64>,
}

/// A loop ready to be dispatched: the loop, its agent cell, the key that
/// makes the dispatch idempotent, the event body, and whether the cell is
/// to be woken at once (resident loops).
#[derive(Debug, Clone)]
pub struct DispatchPlan {
    pub loop_def: LoopDefinition,
    pub agent_cell_id: String,
    pub idempotency_key: String,
    pub body: DispatchBody,
    pub wake_now: bool,
}

/// How a dispatch request begins.
#[derive(Debug, Clone)]
pub enum DispatchStart {
    /// The loop cannot be planned: the request is answered with this.
    Rejected(LoopDispatchResponse),
    /// The request is refused with this error.
    Refused(Error),
    /// The loop is to be recorded as a run and sent to its cell.
    Ready(DispatchPlan),
}

pub const KEY_TOO_LONG: &'static str = "idempotencyKey is too long";

/// The idempotency key of a dispatch: the requested one unless it is absent
/// or blank, else the generated one.
pub open spec fn idempotency_key_of(requested: Option<String>, generated: Seq<char>) -> Seq<char> {
    match requested {
        Some(k) => if trim(k@).len() > 0 {
            k@
        } else {
            generated
        },
        None => generated,
    }
}

/// The body of the event for loop `d`.
pub open spec fn body_matches(d: LoopDefinition, b: DispatchBody) -> bool {
    &&& b.loop_name@ == d.name@
    &&& b.kind == d.kind
    &&& b.goal@ == d.goal@
    &&& b.mode == d.mode
    &&& b.resident_interval_seconds == match d.trigger {
        Trigger::Resident { interval_seconds } => Some(interval_seconds),
        _ => None,
    }
}

/// The first step of a dispatch. `generated_key` is the key to use when the
/// request brings none.
/// How a dispatch request starts: refused planning is answered as a
/// rejection; an idempotency key (the request's when it is not blank, else
/// the generated one) longer than 200 bytes is refused; otherwise the loop
/// is ready to be enqueued into its agent cell.
pub open spec fn dispatch_start_of(request: LoopPlanRequest, generated_key: Seq<char>, r: DispatchStart) -> bool {
    match plan_problem(request.project, request.loop_name@) {
        Some(m) => r matches DispatchStart::Rejected(resp) && !resp.accepted && resp.reason@ == m
            && resp.loop_plan is None && resp.dispatch is None && resp.run_id is None
            && !resp.deduplicated,
        None => {
            let d = request.project.loops@[position_of(request.project.loops@, request.loop_name@)];
            let key = idempotency_key_of(request.idempotency_key, generated_key);
            if vstd::utf8::encode_utf8(key).len() > 200 {
                r matches DispatchStart::Refused(Error::Config(m)) && m@ == KEY_TOO_LONG@
            } else {
                r matches DispatchStart::Ready(p) && d.same_as(&p.loop_def) && p.agent_cell_id@
                    == cell_id_of(
                    d.agent.cell_id_template@,
                    request.project.name@,
                    d.name@,
                    request.agent_key@,
                ) && p.idempotency_key@ == key && body_matches(d, p.body) && p.wake_now == (
                d.trigger is Resident)
            }
        },
    }
}

pub fn begin_dispatch(request: &LoopPlanRequest, generated_key: &str) -> (r: DispatchStart)
    ensures
        dispatch_start_of(*request, generated_key@, r),
        r is Ready ==> {
            let d = request.project.loops@[position_of(request.project.loops@, request.loop_name@)];
            &&& r->Ready_0.body.mode == d.mode
            &&& r->Ready_0.body.kind == d.kind
            &&& r->Ready_0.body.goal@ == d.goal@
            &&& r->Ready_0.body.loop_name@ == request.loop_name@
        },
{
    proof {
        crate::loop_catalog::lemma_position_of(request.project.loops@, request.loop_name@);
    }
    let i = match plan_loop_index(&request.project, request.loop_name.as_str()) {
        Ok(i) => i,
        Err(reason) => {
            return DispatchStart::Rejected(
                LoopDispatchResponse {
                    accepted: false,
                    reason,
                    loop_plan: None,
                    dispatch: None,
                    run_id: None,
                    deduplicated: false,
                },
            )
        },
    };
    let chosen = &request.project.loops[i];
    let cell = agent_cell_id(&request.project, chosen, request.agent_key.as_str());
    let key = match &request.idempotency_key {
        Some(k) => if !is_blank(k.as_str()) {
            k.clone()
        } else {
            owned(generated_key)
        },
        None => owned(generated_key),
    };
    if key.as_str().as_bytes().len() > 200 {
        return DispatchStart::Refused(config_error(KEY_TOO_LONG));
    }
    let resident = match &chosen.trigger {
        Trigger::Resident { interval_seconds } => Some(*interval_seconds),
        _ => None,
    };
    let body = DispatchBody {
        loop_name: chosen.name.clone(),
        kind: chosen.kind,
        goal: chosen.goal.clone(),
        mode: chosen.mode,
        resident_interval_seconds: resident,
    };
    let wake_now = resident.is_some();
    DispatchStart::Ready(
        DispatchPlan {
            loop_def: chosen.duplicate(),
            agent_cell_id: cell,
            idempotency_key: key,
            body,
            wake_now,
        },
    )
}

/// The answer to a dispatch whose run the store already holds: accepted,
/// deduplicated, with the plan and an acknowledgement `run-{id}` that
/// stands for the earlier dispatch.
/// Dispatching follows planning: a dispatch is rejected exactly when the
/// plan is refused, with the same reason; a dispatch that is ready runs the
/// loop that the plan names, in the agent cell that the plan names.
pub proof fn law_dispatch_follows_plan(
    request: LoopPlanRequest,
    plan: LoopPlanResponse,
    generated_key: Seq<char>,
    start: DispatchStart,
)
    requires
        plan_answer(request, plan),
        dispatch_start_of(request, generated_key, start),
    ensures
        (start is Rejected) == !plan.accepted,
        start is Rejected ==> start->Rejected_0.reason@ == plan.reason@,
        start is Ready ==> plan.loop_plan is Some && start->Ready_0.agent_cell_id@
            == plan.loop_plan->0.agent_cell_id@ && start->Ready_0.loop_def.name@
            == plan.loop_plan->0.loop_def.name@,
{
}

/// The event that wakes an agent cell describes the loop that was asked
/// for, as the project defines it: when a dispatch is ready, the project has
/// a loop of the requested name, and the event body carries the first such
/// loop's name, kind, goal and mode, and its interval when it is resident;
/// the cell is woken at once exactly when that loop is resident.
pub proof fn law_dispatch_body_is_the_loops_own(
    request: LoopPlanRequest,
    generated_key: Seq<char>,
    start: DispatchStart,
)
    requires
        dispatch_start_of(request, generated_key, start),
    ensures
        start is Ready ==> exists|i: int|
            0 <= i < request.project.loops@.len() && #[trigger] request.project.loops@[i].name@
                == request.loop_name@ && (forall|j: int|
                0 <= j < i ==> #[trigger] request.project.loops@[j].name@ != request.loop_name@)
                && ({
                let b = start->Ready_0.body;
                let d = request.project.loops@[i];
                &&& b.loop_name@ == d.name@
                &&& b.kind == d.kind
                &&& b.goal@ == d.goal@
                &&& b.mode == d.mode
                &&& (d.trigger is Resident ==> b.resident_interval_seconds == Some(
                    d.trigger->interval_seconds,
                ))
                &&& (d.trigger !is Resident ==> b.resident_interval_seconds is None)
                &&& start->Ready_0.wake_now == d.trigger is Resident
            }),
{
    crate::loop_catalog::lemma_position_of(request.project.loops@, request.loop_name@);
    if start is Ready {
        let i = position_of(request.project.loops@, request.loop_name@);
        assert(request.project.loops@[i].name@ == request.loop_name@);
    }
}

pub open spec fn deduplicated_matches(
    request: LoopPlanRequest,
    d: LoopDefinition,
    run: PreparedRun,
    r: LoopDispatchResponse,
) -> bool {
    &&& r.accepted
    &&& r.reason@ == "loop already dispatched for this idempotency key"@
    &&& r.loop_plan matches Some(p) && plan_matches(request.project, d, request.agent_key@, p)
    &&& r.dispatch matches Some(ack) && ack.accepted && ack.id@ == "run-"@ + uuid_text(run.id)
    &&& r.run_id == Some(run.id)
    &&& r.deduplicated
}

/// The second step of a dispatch, once the run is recorded (`prepared` is
/// `None` where the service keeps no runs). A run that already existed for
/// the idempotency key is answered at once; otherwise (`None`) the event is
/// to be sent.
pub fn after_prepare(request: &LoopPlanRequest, plan: &DispatchPlan, prepared: Option<PreparedRun>) -> (r:
    Option<LoopDispatchResponse>)
    ensures
        match prepared {
            Some(run) => if run.created {
                r is None
            } else {
                r matches Some(resp) && deduplicated_matches(*request, plan.loop_def, run, resp)
            },
            None => r is None,
        },
{
    match prepared {
        Some(run) => {
            if run.created {
                None
            } else {
                let id_text = uuid_string(run.id);
                Some(
                    LoopDispatchResponse {
                        accepted: true,
                        reason: owned("loop already dispatched for this idempotency key"),
                        loop_plan: Some(
                            make_plan(
                                &request.project,
                                &plan.loop_def,
                                request.agent_key.as_str(),
                            ),
                        ),
                        dispatch: Some(
                            InboxAck { accepted: true, id: concat("run-", id_text.as_str()) },
                        ),
                        run_id: Some(run.id),
                        deduplicated: true,
                    },
                )
            }
        },
        None => None,
    }
}

/// What the store of runs is to record after the event was sent or failed.
#[derive(Debug, Clone)]
pub enum RunUpdate {
    /// The run failed for this reason.
    MarkFailed { run_id: u128, reason: String },
    /// The run is running; celld acknowledged the event with this id.
    MarkRunning { run_id: u128, dispatch_id: String },
}

/// The last step of a dispatch: what to record of the run, and the answer.
#[derive(Debug)]
pub struct DispatchFinish {
    pub run_update: Option<RunUpdate>,
    pub result: Result<LoopDispatchResponse, Error>,
}

/// The last step of a dispatch, given celld's answer to the event. A
/// failure is recorded against the run, with the error's description, and
/// returned; an acknowledgement marks the run running and is answered with
/// the plan and the acknowledgement.
pub fn after_enqueue(
    request: &LoopPlanRequest,
    plan: &DispatchPlan,
    prepared: Option<PreparedRun>,
    outcome: Result<InboxAck, Error>,
) -> (r: DispatchFinish)
    ensures
        match outcome {
            Err(e) => r.result == Err::<LoopDispatchResponse, Error>(e) && match prepared {
                Some(run) => r.run_update matches Some(RunUpdate::MarkFailed { run_id, reason })
                    && run_id == run.id && reason@ == description_of(e),
                None => r.run_update is None,
            },
            Ok(ack) => r.result matches Ok(resp) && resp.accepted && resp.reason@
                == "loop dispatched to celld-backed agent cell inbox"@ && resp.loop_plan is Some
                && plan_matches(request.project, plan.loop_def, request.agent_key@, resp.loop_plan->0)
                && resp.dispatch == Some(ack) && resp.run_id == (match prepared {
                Some(run) => Some(run.id),
                None => None,
            }) && !resp.deduplicated && (match prepared {
                Some(run) => r.run_update matches Some(RunUpdate::MarkRunning { run_id, dispatch_id })
                    && run_id == run.id && dispatch_id@ == ack.id@,
                None => r.run_update is None,
            }),
        },
{
    match outcome {
        Err(e) => {
            let run_update = match prepared {
                Some(run) => Some(RunUpdate::MarkFailed { run_id: run.id, reason: e.describe() }),
                None => None,
            };
            DispatchFinish { run_update, result: Err(e) }
        },
        Ok(ack) => {
            let run_update = match prepared {
                Some(run) => Some(
                    RunUpdate::MarkRunning { run_id: run.id, dispatch_id: ack.id.clone() },
                ),
                None => None,
            };
            let run_id = match prepared {
                Some(run) => Some(run.id),
                None => None,
            };
            DispatchFinish {
                run_update,
                result: Ok(
                    LoopDispatchResponse {
                        accepted: true,
                        reason: owned("loop dispatched to celld-backed agent cell inbox"),
                        loop_plan: Some(
                            make_plan(
                                &request.project,
                                &plan.loop_def,
                                request.agent_key.as_str(),
                            ),
                        ),
                        dispatch: Some(ack),
                        run_id,
                        deduplicated: false,
                    },
                ),
            }
        },
    }
}

pub const NOT_RESIDENT: &'static str = "the selected loop is not configured for resident execution";

/// The agent cell and loop whose resident schedules a stop request cancels.
/// The loop must plan and be resident.
pub fn resident_stop_target(request: &LoopPlanRequest) -> (r: Result<(String, String), Error>)
    ensures
        match plan_problem(request.project, request.loop_name@) {
            Some(m) => r matches Err(Error::Config(t)) && t@ == m,
            None => {
                let d = request.project.loops@[position_of(
                    request.project.loops@,
                    request.loop_name@,
                )];
                if d.trigger is Resident {
                    r matches Ok((cell, name)) && cell@ == cell_id_of(
                        d.agent.cell_id_template@,
                        request.project.name@,
                        d.name@,
                        request.agent_key@,
                    ) && name@ == d.name@
                } else {
                    r matches Err(Error::Config(t)) && t@ == NOT_RESIDENT@
                }
            },
        },
{
    let i = match plan_loop_index(&request.project, request.loop_name.as_str()) {
        Ok(i) => i,
        Err(reason) => return Err(Error::Config(reason)),
    };
    let chosen = &request.project.loops[i];
    let resident = match &chosen.trigger {
        Trigger::Resident { .. } => true,
        _ => false,
    };
    if !resident {
        return Err(config_error(NOT_RESIDENT));
    }
    let cell = agent_cell_id(&request.project, chosen, request.agent_key.as_str());
    Ok((cell, chosen.name.clone()))
}

// ---------------------------------------------------------------------------
// Static assets
// ---------------------------------------------------------------------------

/// The file that serves a request for `path` below the site root, or `None`
/// (not found) when a segment of the path is `..`. A path ending in `/`
/// names the `index.html` in that directory; the root directory is
/// `web/out`, and an absolute path replaces it.
pub open spec fn asset_file_of(path: Seq<char>) -> Option<Seq<char>> {
    if exists|i: int| 0 <= i < split(path, '/').len() && #[trigger] split(path, '/')[i] == seq!['.', '.'] {
        None
    } else {
        let relative = if path.len() > 0 && path.last() == '/' {
            path + "index.html"@
        } else {
            path
        };
        if relative.len() > 0 && relative[0] == '/' {
            Some(relative)
        } else {
            Some("web/out/"@ + relative)
        }
    }
}

pub fn static_asset_path(path: &str) -> (r: Option<String>)
    ensures
        match asset_file_of(path@) {
            Some(f) => r matches Some(s) && s@ == f,
            None => r is None,
        },
{
    let chars = chars_of(path);
    let pieces = split_chars(&chars, '/');
    let n = pieces.len();
    for i in 0..n
        invariant
            n == pieces@.len(),
            views(pieces@) == split(path@, '/'),
            chars@ == path@,
            forall|q: int| 0 <= q < i ==> #[trigger] split(path@, '/')[q] != seq!['.', '.'],
    {
        let p = &pieces[i];
        if p.len() == 2 && p[0] == '.' && p[1] == '.' {
            proof {
                assert(views(pieces@)[i as int] == p@);
                assert(p@ =~= seq!['.', '.']);
            }
            return None;
        }
        proof {
            assert(views(pieces@)[i as int] == p@);
            if p@ == seq!['.', '.'] {
                assert(p@[0] == '.' && p@[1] == '.');
            }
        }
    }
    let relative = if chars.len() > 0 && chars[chars.len() - 1] == '/' {
        concat(path, "index.html")
    } else {
        owned(path)
    };
    let rel_chars = chars_of(relative.as_str());
    if rel_chars.len() > 0 && rel_chars[0] == '/' {
        Some(relative)
    } else {
        Some(concat("web/out/", relative.as_str()))
    }
}

/// The components of a path that can name a file: its `/`-separated parts
/// other than empty ones and `.`.
pub open spec fn path_components(path: Seq<char>) -> Seq<Seq<char>> {
    split(path, '/').filter(|c: Seq<char>| c.len() > 0 && c != seq!['.'])
}

/// The extension of the file a path names, as `Path::extension` gives it:
/// none where the path names no file (no component, or `..` last), where
/// the file name has no `.`, or where its only `.` is its first character.
pub open spec fn extension_of(path: Seq<char>) -> Option<Seq<char>> {
    let cs = path_components(path);
    if cs.len() == 0 || cs.last() == seq!['.', '.'] {
        None
    } else {
        let name = cs.last();
        let i = last_dot(name);
        if i <= 0 {
            None
        } else {
            Some(name.skip(i + 1))
        }
    }
}

/// The index of the last `.` in `s`, or -1.
pub open spec fn last_dot(s: Seq<char>) -> int
    decreases s.len(),
{
    if s.len() == 0 {
        -1
    } else if s.last() == '.' {
        s.len() - 1
    } else {
        last_dot(s.drop_last())
    }
}

/// The content type of a file with the given extension.
pub open spec fn content_type_of(ext: Option<Seq<char>>) -> Seq<char> {
    match ext {
        Some(e) => if e == "css"@ {
            "text/css; charset=utf-8"@
        } else if e == "js"@ {
            "application/javascript; charset=utf-8"@
        } else if e == "json"@ {
            "application/json; charset=utf-8"@
        } else if e == "svg"@ {
            "image/svg+xml"@
        } else if e == "ico"@ {
            "image/x-icon"@
        } else if e == "png"@ {
            "image/png"@
        } else if e == "jpg"@ || e == "jpeg"@ {
            "image/jpeg"@
        } else if e == "woff"@ || e == "woff2"@ {
            "font/woff2"@
        } else if e == "html"@ {
            "text/html; charset=utf-8"@
        } else {
            "application/octet-stream"@
        },
        None => "application/octet-stream"@,
    }
}

fn extension(path: &str) -> (r: Option<String>)
    ensures
        match extension_of(path@) {
            Some(e) => r matches Some(s) && s@ == e,
            None => r is None,
        },
{
    let chars = chars_of(path);
    let pieces = split_chars(&chars, '/');
    let n = pieces.len();
    let mut last: Option<usize> = None;
    let ghost all = split(path@, '/');
    let ghost pred = |c: Seq<char>| c.len() > 0 && c != seq!['.'];
    for i in 0..n
        invariant
            n == pieces@.len(),
            views(pieces@) == all,
            all == split(path@, '/'),
            pred == (|c: Seq<char>| c.len() > 0 && c != seq!['.']),
            match last {
                Some(j) => j < i && all.take(i as int).filter(pred).len() > 0 && all.take(
                    i as int,
                ).filter(pred).last() == all[j as int],
                None => all.take(i as int).filter(pred).len() == 0,
            },
    {
        let p = &pieces[i];
        proof {
            assert(views(pieces@)[i as int] == p@);
            assert(all.take(i + 1).drop_last() =~= all.take(i as int));
            reveal_with_fuel(Seq::<_>::filter, 1);
        }
        let component = p.len() > 0 && !(p.len() == 1 && p[0] == '.');
        proof {
            if p@ == seq!['.'] {
                assert(p@[0] == '.');
            }
            if p@.len() == 1 && p@[0] == '.' {
                assert(p@ =~= seq!['.']);
            }
            assert(component == pred(all[i as int]));
        }
        if component {
            last = Some(i);
        }
    }
    proof {
        assert(all.take(n as int) =~= all);
    }
    let j = match last {
        Some(j) => j,
        None => return None,
    };
    let name = &pieces[j];
    proof {
        assert(views(pieces@)[j as int] == name@);
    }
    let m = name.len();
    if m == 2 && name[0] == '.' && name[1] == '.' {
        assert(name@ =~= seq!['.', '.']);
        return None;
    }
    proof {
        if name@ == seq!['.', '.'] {
            assert(name@[0] == '.' && name@[1] == '.');
        }
    }
    let mut k: usize = m;
    assert(name@.take(m as int) =~= name@);
    while k > 0 && name[k - 1] != '.'
        invariant
            m == name@.len(),
            k <= m,
            last_dot(name@) == last_dot(name@.take(k as int)),
        decreases k,
    {
        proof {
            assert(name@.take(k as int).drop_last() =~= name@.take(k - 1));
        }
        k = k - 1;
    }
    proof {
        if k > 0 {
            assert(name@.take(k as int).last() == name@[k - 1]);
        }
    }
    if k <= 1 {
        return None;
    }
    let mut ext: Vec<char> = Vec::new();
    let mut q: usize = k;
    while q < m
        invariant
            m == name@.len(),
            k <= q <= m,
            ext@ == name@.subrange(k as int, q as int),
        decreases m - q,
    {
        ext.push(name[q]);
        proof {
            assert(name@.subrange(k as int, q + 1) =~= name@.subrange(k as int, q as int).push(
                name@[q as int],
            ));
        }
        q = q + 1;
    }
    proof {
        assert(name@.skip(k as int) =~= name@.subrange(k as int, m as int));
    }
    Some(string_of(ext.as_slice()))
}

/// The content type with which a static file is served.
pub fn content_type(path: &str) -> (r: &'static str)
    ensures
        r@ == content_type_of(extension_of(path@)),
{
    let ext = match extension(path) {
        Some(e) => e,
        None => return "application/octet-stream",
    };
    proof {
        reveal_strlit("css");
        reveal_strlit("js");
        reveal_strlit("json");
        reveal_strlit("svg");
        reveal_strlit("ico");
        reveal_strlit("png");
        reveal_strlit("jpg");
        reveal_strlit("jpeg");
        reveal_strlit("woff");
        reveal_strlit("woff2");
        reveal_strlit("html");
    }
    if ext == owned("css") {
        "text/css; charset=utf-8"
    } else if ext == owned("js") {
        "application/javascript; charset=utf-8"
    } else if ext == owned("json") {
        "application/json; charset=utf-8"
    } else if ext == owned("svg") {
        "image/svg+xml"
    } else if ext == owned("ico") {
        "image/x-icon"
    } else if ext == owned("png") {
        "image/png"
    } else if ext == owned("jpg") || ext == owned("jpeg") {
        "image/jpeg"
    } else if ext == owned("woff") || ext == owned("woff2") {
        "font/woff2"
    } else if ext == owned("html") {
        "text/html; charset=utf-8"
    } else {
        "application/octet-stream"
    }
}

// ---------------------------------------------------------------------------
// Request headers
// ---------------------------------------------------------------------------

/// The index of the first `c` in `s`, or -1.
pub open spec fn first_index(s: Seq<char>, c: char) -> int
    decreases s.len(),
{
    if s.len() == 0 {
        -1
    } else {
        let p = first_index(s.drop_last(), c);
        if p >= 0 {
            p
        } else if s.last() == c {
            s.len() - 1
        } else {
            -1
        }
    }
}

/// The session token that one cookie pair carries: the value of a trimmed
/// `looptask_session=value` pair with a nonempty value, split at the first
/// `=`.
pub open spec fn session_in_pair(pair: Seq<char>) -> Option<Seq<char>> {
    let t = trim(pair);
    let i = first_index(t, '=');
    if i >= 0 && t.take(i) == "looptask_session"@ && t.skip(i + 1).len() > 0 {
        Some(t.skip(i + 1))
    } else {
        None
    }
}

/// The first of the `;`-separated pairs of a `Cookie` header, up to index
/// `n`, that carries a session token.
pub open spec fn session_in_pairs(pairs: Seq<Seq<char>>) -> Option<Seq<char>>
    decreases pairs.len(),
{
    if pairs.len() == 0 {
        None
    } else {
        match session_in_pairs(pairs.drop_last()) {
            Some(t) => Some(t),
            None => session_in_pair(pairs.last()),
        }
    }
}

fn session_pair(pair: &Vec<char>) -> (r: Option<String>)
    ensures
        match session_in_pair(pair@) {
            Some(t) => r matches Some(s) && s@ == t,
            None => r is None,
        },
{
    let t = trim_chars(pair);
    let n = t.len();
    let mut i: usize = 0;
    while i < n && t[i] != '='
        invariant
            n == t@.len(),
            i <= n,
            first_index(t@.take(i as int), '=') == -1,
        decreases n - i,
    {
        proof {
            assert(t@.take(i + 1).drop_last() =~= t@.take(i as int));
        }
        i = i + 1;
    }
    if i == n {
        proof {
            assert(t@.take(n as int) =~= t@);
        }
        return None;
    }
    proof {
        lemma_first_index_at(t@, '=', i as int);
    }
    let mut name: Vec<char> = Vec::new();
    for k in 0..i
        invariant
            i < n,
            n == t@.len(),
            name@ == t@.take(k as int),
    {
        name.push(t[k]);
        proof {
            assert(t@.take(k + 1) =~= t@.take(k as int).push(t@[k as int]));
        }
    }
    let mut value: Vec<char> = Vec::new();
    let mut k: usize = i + 1;
    while k < n
        invariant
            i < n,
            n == t@.len(),
            i + 1 <= k <= n,
            value@ == t@.subrange(i + 1, k as int),
        decreases n - k,
    {
        value.push(t[k]);
        proof {
            assert(t@.subrange(i + 1, k + 1) =~= t@.subrange(i + 1, k as int).push(t@[k as int]));
        }
        k = k + 1;
    }
    proof {
        assert(t@.skip(i + 1) =~= t@.subrange(i + 1, n as int));
        reveal_strlit("looptask_session");
    }
    let name = string_of(name.as_slice());
    if name == owned("looptask_session") && value.len() > 0 {
        Some(string_of(value.as_slice()))
    } else {
        None
    }
}

proof fn lemma_first_index_at(s: Seq<char>, c: char, i: int)
    requires
        0 <= i < s.len(),
        first_index(s.take(i), c) == -1,
        s[i] == c,
    ensures
        first_index(s, c) == i,
    decreases s.len(),
{
    assert(s.take(i + 1).drop_last() =~= s.take(i));
    if s.len() > i + 1 {
        assert(s.drop_last().take(i) =~= s.take(i));
        lemma_first_index_at(s.drop_last(), c, i);
    } else {
        assert(s.take(i + 1) =~= s);
    }
}

/// The session token in a `Cookie` header (`None` where the request has no
/// such header or it is not visible ASCII).
pub fn session_cookie(cookie_header: Option<&str>) -> (r: Option<String>)
    ensures
        match cookie_header {
            Some(h) => match session_in_pairs(split(h@, ';')) {
                Some(t) => r matches Some(s) && s@ == t,
                None => r is None,
            },
            None => r is None,
        },
{
    let header = match cookie_header {
        Some(h) => h,
        None => return None,
    };
    let chars = chars_of(header);
    let pairs = split_chars(&chars, ';');
    let n = pairs.len();
    let ghost all = split(header@, ';');
    for i in 0..n
        invariant
            n == pairs@.len(),
            views(pairs@) == all,
            all == split(header@, ';'),
            cookie_header == Some(header),
            session_in_pairs(all.take(i as int)) is None,
    {
        proof {
            assert(all.take(i + 1).drop_last() =~= all.take(i as int));
            assert(views(pairs@)[i as int] == pairs@[i as int]@);
        }
        if let Some(token) = session_pair(&pairs[i]) {
            proof {
                lemma_pairs_first(all, i as int);
            }
            return Some(token);
        }
    }
    proof {
        assert(all.take(n as int) =~= all);
    }
    None
}

proof fn lemma_pairs_first(all: Seq<Seq<char>>, i: int)
    requires
        0 <= i < all.len(),
        session_in_pairs(all.take(i)) is None,
        session_in_pair(all[i]) is Some,
    ensures
        session_in_pairs(all) == session_in_pair(all[i]),
    decreases all.len(),
{
    assert(all.take(i + 1).drop_last() =~= all.take(i));
    if all.len() > i + 1 {
        assert(all.drop_last().take(i) =~= all.take(i));
        lemma_pairs_first(all.drop_last(), i);
    } else {
        assert(all.take(i + 1) =~= all);
    }
}

proof fn lemma_first_index_none(s: Seq<char>, c: char)
    requires
        forall|i: int| 0 <= i < s.len() ==> s[i] != c,
    ensures
        first_index(s, c) == -1,
    decreases s.len(),
{
    if s.len() > 0 {
        lemma_first_index_none(s.drop_last(), c);
    }
}

/// The session that a login sets is read back from a `Cookie` header that
/// carries its token: for a nonempty token that holds no `;` and does not
/// end in whitespace.
pub proof fn law_session_cookie_round_trip(token: Seq<char>)
    requires
        token.len() > 0,
        !is_white_space(token.last()),
        forall|i: int| 0 <= i < token.len() ==> token[i] != ';',
    ensures
        session_in_pairs(split("looptask_session="@ + token, ';')) == Some(token),
{
    reveal_strlit("looptask_session=");
    reveal_strlit("looptask_session");
    let name = "looptask_session"@;
    let s = "looptask_session="@ + token;
    assert(s.len() == 17 + token.len());
    assert forall|i: int| 0 <= i < s.len() implies s[i] != ';' by {
        if i >= 17 {
            assert(s[i] == token[i - 17]);
        }
    }
    crate::text::lemma_split_without_sep(s, ';');
    let pairs = seq![s];
    assert(pairs.drop_last() =~= Seq::<Seq<char>>::empty());
    assert(session_in_pairs(Seq::<Seq<char>>::empty()) is None);
    assert(session_in_pairs(pairs) == session_in_pair(s));
    assert(s.last() == token.last());
    assert(trim_start(s) == s);
    assert(trim_end(s) == s);
    assert(s.take(16) =~= name);
    lemma_first_index_none(s.take(16), '=');
    lemma_first_index_at(s, '=', 16);
    assert(s.skip(17) =~= token);
}

/// The client address: from the `cf-connecting-ip` header when the request
/// has one, else from `x-forwarded-for`; the first comma-separated entry,
/// trimmed, if nonempty. Each argument is `None` where the request lacks the
/// header, and `Some(None)` where its value is not visible ASCII.
pub open spec fn client_ip_of(
    cf_connecting_ip: Option<Option<Seq<char>>>,
    x_forwarded_for: Option<Option<Seq<char>>>,
) -> Option<Seq<char>> {
    let chosen = match cf_connecting_ip {
        Some(v) => Some(v),
        None => x_forwarded_for,
    };
    match chosen {
        Some(Some(v)) => {
            let first = trim(split(v, ',')[0]);
            if first.len() > 0 {
                Some(first)
            } else {
                None
            }
        },
        _ => None,
    }
}

pub open spec fn header_view(h: Option<Option<String>>) -> Option<Option<Seq<char>>> {
    match h {
        Some(Some(v)) => Some(Some(v@)),
        Some(None) => Some(None),
        None => None,
    }
}

pub fn request_ip(cf_connecting_ip: Option<Option<String>>, x_forwarded_for: Option<Option<String>>) -> (r:
    Option<String>)
    ensures
        match client_ip_of(header_view(cf_connecting_ip), header_view(x_forwarded_for)) {
            Some(ip) => r matches Some(s) && s@ == ip,
            None => r is None,
        },
{
    let chosen = match cf_connecting_ip {
        Some(v) => Some(v),
        None => x_forwarded_for,
    };
    let value = match chosen {
        Some(Some(v)) => v,
        _ => return None,
    };
    let chars = chars_of(value.as_str());
    let pieces = split_chars(&chars, ',');
    proof {
        crate::text::lemma_split_nonempty(chars@, ',');
        assert(views(pieces@)[0] == pieces@[0]@);
    }
    let first = trim_chars(&pieces[0]);
    if first.len() > 0 {
        Some(string_of(first.as_slice()))
    } else {
        None
    }
}

// ---------------------------------------------------------------------------
// Sessions over HTTP
// ---------------------------------------------------------------------------

/// The message with which a request that needs a session is refused.
pub const LOGIN_REQUIRED: &'static str = "请先登录后再执行此操作";

/// The `Set-Cookie` value that ends a session.
pub const LOGOUT_COOKIE: &'static str = "looptask_session=; Max-Age=0; Path=/; HttpOnly; Secure; SameSite=Lax";

/// The source named in the inbox events that dispatch loops.
pub const DISPATCH_SOURCE: &'static str = "looptask-dispatch";

/// The `Set-Cookie` value that opens the session `session_id`, kept for
/// thirty days.
pub fn session_set_cookie(session_id: &str) -> (r: String)
    ensures
        r@ == "looptask_session="@ + session_id@
            + "; Max-Age=2592000; Path=/; HttpOnly; Secure; SameSite=Lax"@,
{
    concat3(
        "looptask_session=",
        session_id,
        "; Max-Age=2592000; Path=/; HttpOnly; Secure; SameSite=Lax",
    )
}

/// The answer to a session query: authenticated exactly when there is a
/// user.
pub fn session_response(user: Option<PublicUser>) -> (r: SessionResponse)
    ensures
        r.authenticated == user is Some,
        r.user == user,
{
    let authenticated = user.is_some();
    SessionResponse { authenticated, user }
}

} // verus!
