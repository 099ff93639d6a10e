use looptask::celld::InboxAck;
use looptask::loop_catalog::{docs_lifecycle_patrol, find_loop_index, find_template, templates, validate};
use looptask::models::{
    default_branch, AgentProfile, CelldRuntime, LoopBudget, LoopDefinition, LoopKind, LoopMode,
    LoopSafety, LoopStep, Project, StatePolicy, StopRules, Trigger,
};
use looptask::persistence::{run_list_limit, validate_project_name, PreparedRun};
use looptask::auth::PublicUser;
use looptask::celld::{celld_body_error, celld_request_error, celld_status_error};
use looptask::server::{
    session_response, session_set_cookie, LOGOUT_COOKIE, after_enqueue, after_prepare, begin_dispatch, build_loop_plan, content_type,
    default_agent_key, plan_loop_index, plan_response, request_ip, resident_stop_target,
    session_cookie, static_asset_path, DispatchStart, LoopPlanRequest, RunUpdate, KEY_TOO_LONG,
    NOT_RESIDENT, RESIDENT_INTERVAL,
};
use looptask::Error;

fn loop_def(name: &str, trigger: Trigger) -> LoopDefinition {
    LoopDefinition {
        name: name.to_string(),
        kind: LoopKind::DocsSync,
        goal: format!("keep {name} current"),
        summary: String::new(),
        mode: LoopMode::default(),
        trigger,
        agent: AgentProfile {
            cell_id_template: "{project}/{loop}/{agent}".to_string(),
            ..AgentProfile::default()
        },
        verifiers: Vec::new(),
        state: StatePolicy::default(),
        stop_rules: StopRules::default(),
        escalation_rules: Vec::new(),
        steps: Vec::new(),
        decision_rules: Vec::new(),
        budget: LoopBudget::default(),
        safety: LoopSafety::default(),
    }
}

fn project(loops: Vec<LoopDefinition>) -> Project {
    Project {
        name: "looptask".to_string(),
        repository: None,
        default_branch: default_branch(),
        tech_stack: Vec::new(),
        docs: Vec::new(),
        source_paths: Vec::new(),
        external_data_sources: Vec::new(),
        celld: CelldRuntime::default(),
        loops,
    }
}

fn standard_project() -> Project {
    project(vec![
        loop_def("docs-sync", Trigger::Manual),
        loop_def("patrol", Trigger::Resident { interval_seconds: 3600 }),
        loop_def("too-fast", Trigger::Resident { interval_seconds: 30 }),
    ])
}

fn request(loop_name: &str, key: Option<&str>) -> LoopPlanRequest {
    LoopPlanRequest {
        project: standard_project(),
        loop_name: loop_name.to_string(),
        agent_key: "docs".to_string(),
        idempotency_key: key.map(str::to_string),
    }
}

#[test]
fn plans_name_the_agent_cell() {
    let response = plan_response(&request("docs-sync", None));
    assert!(response.accepted);
    assert_eq!(response.reason, "loop can be dispatched to a celld-backed agent cell");
    let plan = response.loop_plan.unwrap();
    assert_eq!(plan.project, "looptask");
    assert_eq!(plan.agent_cell_id, "looptask/docs-sync/docs");
    assert_eq!(plan.loop_def.name, "docs-sync");
}

#[test]
fn unknown_loops_are_not_planned() {
    let response = plan_response(&request("does-not-exist", None));
    assert!(!response.accepted);
    assert_eq!(response.reason, "loop 'does-not-exist' not found");
    assert!(response.loop_plan.is_none());
    assert_eq!(
        build_loop_plan(&standard_project(), "does-not-exist").unwrap_err(),
        "loop 'does-not-exist' not found"
    );
}

#[test]
fn resident_interval_is_bounded() {
    assert_eq!(plan_loop_index(&standard_project(), "too-fast").unwrap_err(), RESIDENT_INTERVAL);
    assert_eq!(plan_loop_index(&standard_project(), "patrol").unwrap(), 1);
    let slow = project(vec![loop_def("slow", Trigger::Resident { interval_seconds: 31_536_001 })]);
    assert_eq!(plan_loop_index(&slow, "slow").unwrap_err(), RESIDENT_INTERVAL);
    let edge = project(vec![loop_def("edge", Trigger::Resident { interval_seconds: 60 })]);
    assert_eq!(build_loop_plan(&edge, "edge").unwrap().name, "edge");
}

#[test]
fn first_loop_of_a_name_wins() {
    let mut first = loop_def("twin", Trigger::Manual);
    first.goal = "first".to_string();
    let mut second = loop_def("twin", Trigger::Manual);
    second.goal = "second".to_string();
    let p = project(vec![loop_def("other", Trigger::Manual), first, second]);
    assert_eq!(find_loop_index(&p.loops, "twin"), Some(1));
    assert_eq!(find_loop_index(&p.loops, "none"), None);
    assert_eq!(build_loop_plan(&p, "twin").unwrap().goal, "first");
}

#[test]
fn dispatch_of_unknown_loop_is_rejected() {
    match begin_dispatch(&request("does-not-exist", None), "generated") {
        DispatchStart::Rejected(response) => {
            assert!(!response.accepted);
            assert_eq!(response.reason, "loop 'does-not-exist' not found");
            assert!(response.loop_plan.is_none());
            assert!(response.dispatch.is_none());
            assert!(response.run_id.is_none());
            assert!(!response.deduplicated);
        }
        other => panic!("expected a rejection, got {other:?}"),
    }
}

#[test]
fn dispatch_prepares_the_event_body() {
    match begin_dispatch(&request("patrol", Some("  ")), "generated-key") {
        DispatchStart::Ready(plan) => {
            assert_eq!(plan.agent_cell_id, "looptask/patrol/docs");
            assert_eq!(plan.idempotency_key, "generated-key");
            assert_eq!(plan.body.loop_name, "patrol");
            assert_eq!(plan.body.goal, "keep patrol current");
            assert_eq!(plan.body.resident_interval_seconds, Some(3600));
            assert!(plan.wake_now);
        }
        other => panic!("expected a plan, got {other:?}"),
    }
    match begin_dispatch(&request("docs-sync", Some("client-key")), "generated-key") {
        DispatchStart::Ready(plan) => {
            assert_eq!(plan.idempotency_key, "client-key");
            assert_eq!(plan.body.resident_interval_seconds, None);
            assert!(!plan.wake_now);
        }
        other => panic!("expected a plan, got {other:?}"),
    }
}

#[test]
fn overlong_idempotency_keys_are_refused() {
    let key = "k".repeat(201);
    match begin_dispatch(&request("docs-sync", Some(&key)), "generated") {
        DispatchStart::Refused(Error::Config(m)) => assert_eq!(m, KEY_TOO_LONG),
        other => panic!("expected a refusal, got {other:?}"),
    }
    let key = "k".repeat(200);
    assert!(matches!(
        begin_dispatch(&request("docs-sync", Some(&key)), "generated"),
        DispatchStart::Ready(_)
    ));
}

#[test]
fn an_existing_run_is_answered_as_deduplicated() {
    let req = request("docs-sync", Some("client-key"));
    let plan = match begin_dispatch(&req, "generated") {
        DispatchStart::Ready(plan) => plan,
        other => panic!("expected a plan, got {other:?}"),
    };
    assert!(after_prepare(&req, &plan, None).is_none());
    assert!(after_prepare(&req, &plan, Some(PreparedRun { id: 1, created: true })).is_none());
    let response = after_prepare(&req, &plan, Some(PreparedRun { id: 0xab, created: false })).unwrap();
    assert!(response.accepted);
    assert!(response.deduplicated);
    assert_eq!(response.reason, "loop already dispatched for this idempotency key");
    assert_eq!(response.run_id, Some(0xab));
    let ack = response.dispatch.unwrap();
    assert!(ack.accepted);
    assert_eq!(ack.id, "run-00000000-0000-0000-0000-0000000000ab");
    assert_eq!(response.loop_plan.unwrap().agent_cell_id, "looptask/docs-sync/docs");
}

#[test]
fn enqueue_outcome_updates_the_run() {
    let req = request("docs-sync", None);
    let plan = match begin_dispatch(&req, "generated") {
        DispatchStart::Ready(plan) => plan,
        other => panic!("expected a plan, got {other:?}"),
    };
    let run = Some(PreparedRun { id: 5, created: true });

    let done = after_enqueue(&req, &plan, run, Ok(InboxAck { accepted: true, id: "evt-1".to_string() }));
    match done.run_update {
        Some(RunUpdate::MarkRunning { run_id, dispatch_id }) => {
            assert_eq!(run_id, 5);
            assert_eq!(dispatch_id, "evt-1");
        }
        other => panic!("expected a running mark, got {other:?}"),
    }
    let response = done.result.unwrap();
    assert!(response.accepted);
    assert!(!response.deduplicated);
    assert_eq!(response.reason, "loop dispatched to celld-backed agent cell inbox");
    assert_eq!(response.run_id, Some(5));
    assert_eq!(response.dispatch.unwrap().id, "evt-1");

    let failed = after_enqueue(&req, &plan, run, Err(Error::Celld("boom".to_string())));
    match failed.run_update {
        Some(RunUpdate::MarkFailed { run_id, reason }) => {
            assert_eq!(run_id, 5);
            assert_eq!(reason, "celld request failed: boom");
        }
        other => panic!("expected a failure mark, got {other:?}"),
    }
    assert!(matches!(failed.result, Err(Error::Celld(m)) if m == "boom"));

    let untracked = after_enqueue(&req, &plan, None, Err(Error::Celld("boom".to_string())));
    assert!(untracked.run_update.is_none());
}

#[test]
fn only_resident_loops_can_be_stopped() {
    let (cell, name) = resident_stop_target(&request("patrol", None)).unwrap();
    assert_eq!(cell, "looptask/patrol/docs");
    assert_eq!(name, "patrol");
    assert!(matches!(
        resident_stop_target(&request("docs-sync", None)),
        Err(Error::Config(m)) if m == NOT_RESIDENT
    ));
    assert!(matches!(
        resident_stop_target(&request("missing", None)),
        Err(Error::Config(m)) if m == "loop 'missing' not found"
    ));
}

#[test]
fn default_agent_key_is_default() {
    assert_eq!(default_agent_key(), "default");
}

#[test]
fn static_assets_resolve_below_the_site_root() {
    assert_eq!(static_asset_path("app.js").unwrap(), "web/out/app.js");
    assert_eq!(static_asset_path("docs/").unwrap(), "web/out/docs/index.html");
    assert!(static_asset_path("../secret").is_none());
    assert!(static_asset_path("a/../b").is_none());
    assert_eq!(static_asset_path("a/..b").unwrap(), "web/out/a/..b");
}

#[test]
fn content_types_follow_the_extension() {
    assert_eq!(content_type("web/out/site.css"), "text/css; charset=utf-8");
    assert_eq!(content_type("web/out/app.js"), "application/javascript; charset=utf-8");
    assert_eq!(content_type("web/out/data.json"), "application/json; charset=utf-8");
    assert_eq!(content_type("web/out/logo.svg"), "image/svg+xml");
    assert_eq!(content_type("web/out/favicon.ico"), "image/x-icon");
    assert_eq!(content_type("web/out/a.png"), "image/png");
    assert_eq!(content_type("web/out/a.jpeg"), "image/jpeg");
    assert_eq!(content_type("web/out/a.jpg"), "image/jpeg");
    assert_eq!(content_type("web/out/f.woff"), "font/woff2");
    assert_eq!(content_type("web/out/index.html"), "text/html; charset=utf-8");
    assert_eq!(content_type("web/out/README"), "application/octet-stream");
    assert_eq!(content_type("web/out/.hidden"), "application/octet-stream");
    assert_eq!(content_type("web/out/archive.tar.gz"), "application/octet-stream");
}

#[test]
fn session_cookie_is_found_among_others() {
    assert_eq!(
        session_cookie(Some("theme=dark; looptask_session=abc123; other=1")).unwrap(),
        "abc123"
    );
    assert!(session_cookie(Some("looptask_session=")).is_none());
    assert!(session_cookie(Some("theme=dark")).is_none());
    assert!(session_cookie(None).is_none());
    assert_eq!(
        session_cookie(Some("looptask_session=first;looptask_session=second")).unwrap(),
        "first"
    );
}

#[test]
fn client_ip_prefers_cloudflare() {
    let s = |v: &str| Some(Some(v.to_string()));
    assert_eq!(request_ip(s(" 1.2.3.4 "), s("5.6.7.8")).unwrap(), "1.2.3.4");
    assert_eq!(request_ip(None, s(" 5.6.7.8 , 9.9.9.9")).unwrap(), "5.6.7.8");
    assert!(request_ip(Some(None), s("5.6.7.8")).is_none());
    assert!(request_ip(s("  "), s("5.6.7.8")).is_none());
    assert!(request_ip(None, None).is_none());
}

#[test]
fn catalog_holds_the_docs_patrol() {
    let all = templates();
    assert_eq!(all.len(), 1);
    let t = &all[0];
    assert_eq!(t.id, "docs-lifecycle-patrol");
    assert_eq!(t.definition.name, "docs-lifecycle-patrol");
    assert_eq!(t.definition.mode, LoopMode::HumanGated);
    assert_eq!(t.capability_tags.len(), 4);
    let steps = &t.definition.steps;
    assert_eq!(steps.len(), 6);
    assert_eq!(steps[0].command, vec!["git", "fetch", "origin"]);
    assert_eq!(steps[2].allowed_paths, vec!["docs/**", ".agents/**"]);
    assert_eq!(steps[3].forbidden_actions, vec!["auto-adjudicate"]);
    assert_eq!(steps[5].title, "清理 worktree");
    let rules = &t.definition.decision_rules;
    assert_eq!(rules.len(), 4);
    assert_eq!(rules[3].signal, "budget exceeded");
    assert_eq!(rules[0].evidence_required, vec!["耗时", "调用数"]);
    assert_eq!(t.definition.budget.max_tool_calls, 200);
    assert_eq!(t.definition.stop_rules.max_consecutive_failures, 2);
    assert_eq!(find_template("docs-lifecycle-patrol").unwrap().id, t.id);
    assert!(find_template("nope").is_none());
    assert_eq!(docs_lifecycle_patrol().summary, t.summary);
}

#[test]
fn validation_selects_and_judges_a_loop() {
    let empty = project(Vec::new());
    let fallback = validate(&empty, None);
    assert_eq!(fallback.loop_definition.name, "docs-lifecycle-patrol");
    assert!(fallback.accepted);
    assert_eq!(fallback.stages.len(), fallback.loop_definition.steps.len());
    assert_eq!(fallback.guardrails[0], "永不 merge、永不打 tag、永不 push main");

    let mut stepped = loop_def("stepped", Trigger::Manual);
    stepped.summary = "short".to_string();
    stepped.steps.push(LoopStep {
        id: "scan".to_string(),
        title: "Scan".to_string(),
        purpose: "find".to_string(),
        command: Vec::new(),
        allowed_paths: vec!["docs/".to_string(), "README.md".to_string()],
        forbidden_actions: Vec::new(),
    });
    stepped.safety.forbidden_actions.push("delete".to_string());
    let p = project(vec![loop_def("plain", Trigger::Manual), stepped]);

    let plain = validate(&p, Some("missing"));
    assert_eq!(plain.loop_definition.name, "plain");
    assert!(!plain.accepted);
    assert_eq!(plain.summary, "keep plain current");
    assert_eq!(plain.guardrails.len(), 3);

    let chosen = validate(&p, Some("stepped"));
    assert!(chosen.accepted);
    assert_eq!(chosen.summary, "short");
    assert_eq!(chosen.stages[0].safety, "白名单：docs/、README.md");
    assert_eq!(chosen.guardrails.len(), 4);
    assert_eq!(chosen.guardrails[3], "delete");
}

#[test]
fn project_names_are_checked() {
    assert!(validate_project_name(&standard_project()).is_ok());
    let blank = Project { name: "  ".to_string(), ..standard_project() };
    assert!(matches!(validate_project_name(&blank), Err(Error::Config(m)) if m == "project.name is required"));
    let long = Project { name: "n".repeat(121), ..standard_project() };
    assert!(matches!(validate_project_name(&long), Err(Error::Config(m)) if m == "project.name is too long"));
}

#[test]
fn run_listing_limit_is_clamped() {
    assert_eq!(run_list_limit(0), 1);
    assert_eq!(run_list_limit(50), 50);
    assert_eq!(run_list_limit(1000), 100);
}

#[test]
fn errors_answer_with_status_and_message() {
    let cases = [
        (Error::NotFound("x".to_string()), 404, "x", "Not found: x"),
        (Error::Config("bad".to_string()), 400, "bad", "Configuration error: bad"),
        (Error::Unauthorized("who".to_string()), 401, "who", "Unauthorized: who"),
        (Error::Celld("down".to_string()), 502, "down", "celld request failed: down"),
        (Error::Database("pg".to_string()), 500, "internal server error", "Database error: pg"),
        (Error::Internal("oops".to_string()), 500, "internal server error", "Internal error: oops"),
    ];
    for (error, status, public, description) in cases {
        assert_eq!(error.status_code(), status);
        assert_eq!(error.public_message(), public);
        assert_eq!(error.describe(), description);
    }
}

#[test]
fn session_cookies_open_and_close() {
    assert_eq!(
        session_set_cookie("abc"),
        "looptask_session=abc; Max-Age=2592000; Path=/; HttpOnly; Secure; SameSite=Lax"
    );
    assert!(LOGOUT_COOKIE.starts_with("looptask_session=; Max-Age=0;"));
    let token = "67e55044-10b1-426f-9247-bb680e5fe0c8";
    let header = format!("looptask_session={token}");
    assert_eq!(session_cookie(Some(&header)).unwrap(), token);
    let user = PublicUser {
        id: 1,
        email: "a@b.co".to_string(),
        display_name: "a".to_string(),
        created_at: 0,
    };
    let answer = session_response(Some(user));
    assert!(answer.authenticated);
    assert_eq!(answer.user.unwrap().id, 1);
    let anonymous = session_response(None);
    assert!(!anonymous.authenticated);
    assert!(anonymous.user.is_none());
}

#[test]
fn celld_failures_are_described() {
    let text = |e: Error| match e {
        Error::Celld(m) => m,
        other => panic!("unexpected {other:?}"),
    };
    assert_eq!(text(celld_request_error("timeout")), "failed to reach celld: timeout");
    assert_eq!(
        text(celld_status_error("500 Internal Server Error", "boom")),
        "celld responded with 500 Internal Server Error: boom"
    );
    assert_eq!(text(celld_body_error("eof")), "invalid celld response body: eof");
}
