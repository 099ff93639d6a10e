use looptask::celld::{
    agent_cell_id, artifact_placement, cell_path, cell_url_from, default_event_source, CelldClient,
    foundation, ArtifactPlacement, CellRequest,
};
use looptask::config::parse_u16;
use looptask::text::replace_str;
use looptask::models::{
    default_branch, AgentProfile, CelldRuntime, LoopBudget, LoopDefinition, LoopKind, LoopMode,
    LoopSafety, Project, StatePolicy, StopRules, Trigger,
};
use looptask::{Config, Error, ProjectConfig};

fn loop_def(name: &str, kind: LoopKind, template: &str) -> LoopDefinition {
    LoopDefinition {
        name: name.to_string(),
        kind,
        goal: format!("run {name}"),
        summary: String::new(),
        mode: LoopMode::default(),
        trigger: Trigger::default(),
        agent: AgentProfile {
            cell_id_template: template.to_string(),
            ..AgentProfile::default()
        },
        verifiers: Vec::new(),
        state: StatePolicy::default(),
        stop_rules: StopRules::default(),
        escalation_rules: Vec::new(),
        steps: Vec::new(),
        decision_rules: Vec::new(),
        budget: LoopBudget::default(),
        safety: LoopSafety::default(),
    }
}

/// The project of the example configuration: `looptask`, with its three
/// loops and the default celld runtime.
fn example_project() -> Project {
    Project {
        name: "looptask".to_string(),
        repository: None,
        default_branch: default_branch(),
        tech_stack: vec!["rust".to_string()],
        docs: vec!["README.md".to_string()],
        source_paths: vec!["src".to_string()],
        external_data_sources: Vec::new(),
        celld: CelldRuntime::default(),
        loops: vec![
            loop_def("docs-sync", LoopKind::DocsSync, "{project}/{loop}/{agent}"),
            loop_def("external-data-sync", LoopKind::ExternalDataSync, "{project}/{loop}"),
            loop_def("architecture-scan", LoopKind::ArchitectureScan, "{project}/{loop}"),
        ],
    }
}

#[test]
fn celld_foundation_keeps_untrusted_execution_outside_cells() {
    let config = ProjectConfig { project: example_project() };
    let runtime = foundation(&config.project);

    assert!(
        runtime
            .sandbox_boundary
            .warning
            .contains("not a hostile multi-tenant sandbox")
    );
    assert!(
        runtime
            .sandbox_boundary
            .external_sandbox_handles
            .contains(&"untrusted code execution".to_string())
    );
}

#[test]
fn agent_cell_id_uses_project_loop_and_agent() {
    let config = ProjectConfig { project: example_project() };
    let loop_def = &config.project.loops[0];

    assert_eq!(
        agent_cell_id(&config.project, loop_def, "docs"),
        "looptask/docs-sync/docs"
    );
}

#[test]
fn large_or_cold_artifacts_go_to_object_storage() {
    assert_eq!(
        artifact_placement(10, true, false),
        ArtifactPlacement::CellSqlite
    );
    assert_eq!(
        artifact_placement(1024 * 1024, true, false),
        ArtifactPlacement::ObjectStorage
    );
    assert_eq!(
        artifact_placement(10, false, false),
        ArtifactPlacement::ObjectStorage
    );
}

#[test]
fn shared_or_exactly_large_artifacts() {
    assert_eq!(artifact_placement(512 * 1024, true, false), ArtifactPlacement::CellSqlite);
    assert_eq!(artifact_placement(512 * 1024 + 1, true, false), ArtifactPlacement::ObjectStorage);
    assert_eq!(artifact_placement(1, true, true), ArtifactPlacement::ObjectStorage);
}

#[test]
fn foundation_names_commands_from_app_dir_and_bucket() {
    let mut project = example_project();
    let f = foundation(&project);
    assert_eq!(f.local_dev_command, "cd celld && celld dev");
    assert!(f.deploy_command.is_none());
    assert_eq!(f.durable_object_class, "AgentCell");
    project.celld.bucket = Some("agents-bucket".to_string());
    let f = foundation(&project);
    assert_eq!(
        f.deploy_command.as_deref(),
        Some("cd celld && celld deploy . --bucket agents-bucket")
    );
    assert_eq!(f.state_strategy.hot_state.len(), 3);
    assert_eq!(f.sandbox_boundary.celld_handles.len(), 4);
}

#[test]
fn cell_id_replaces_every_placeholder() {
    let mut project = example_project();
    project.loops[0].agent.cell_id_template = "{agent}-{project}-{agent}".to_string();
    assert_eq!(agent_cell_id(&project, &project.loops[0], "x"), "x-looptask-x");
    project.loops[0].agent.cell_id_template = "{loop}{loop".to_string();
    assert_eq!(agent_cell_id(&project, &project.loops[0], "x"), "docs-sync{loop");
}

#[test]
fn celld_url_prefers_internal() {
    let mut project = example_project();
    assert_eq!(CelldClient::for_project(&project).unwrap().base_url(), "http://127.0.0.1:9876");
    project.celld.internal_url = Some("http://celld.internal".to_string());
    assert_eq!(CelldClient::for_project(&project).unwrap().base_url(), "http://celld.internal");
    project.celld.internal_url = None;
    project.celld.public_url = None;
    match CelldClient::for_project(&project) {
        Err(Error::Config(m)) => {
            assert_eq!(m, "project.celld.internalUrl or publicUrl is required to reach celld")
        }
        other => panic!("unexpected {:?}", other),
    }
}

#[test]
fn cell_paths_keep_the_id_in_one_segment() {
    assert_eq!(
        cell_path("looptask/docs-sync/docs", CellRequest::State),
        vec!["agents", "looptask/docs-sync/docs", "state"]
    );
    assert_eq!(
        cell_path("c", CellRequest::ResidentCancel),
        vec!["agents", "c", "resident", "cancel"]
    );
    assert_eq!(default_event_source(), "looptask");
}

#[test]
fn project_config_validation() {
    let mut config = ProjectConfig { project: example_project() };
    assert!(config.validate().is_ok());
    config.project.loops[1].goal = "  ".to_string();
    match config.validate() {
        Err(Error::Config(m)) => assert_eq!(m, "loop.goal is required for external-data-sync"),
        other => panic!("unexpected {:?}", other),
    }
    config.project.loops[0].name = "\t".to_string();
    match config.validate() {
        Err(Error::Config(m)) => assert_eq!(m, "loop.name is required"),
        other => panic!("unexpected {:?}", other),
    }
    config.project.loops.clear();
    match config.validate() {
        Err(Error::Config(m)) => assert_eq!(m, "project.loops must not be empty"),
        other => panic!("unexpected {:?}", other),
    }
    config.project.name = " ".to_string();
    match config.validate() {
        Err(Error::Config(m)) => assert_eq!(m, "project.name is required"),
        other => panic!("unexpected {:?}", other),
    }
}

#[test]
fn ports_parse_like_u16() {
    assert_eq!(parse_u16("8080"), Some(8080));
    assert_eq!(parse_u16("+80"), Some(80));
    assert_eq!(parse_u16("065535"), Some(65535));
    assert_eq!(parse_u16("65536"), None);
    assert_eq!(parse_u16(""), None);
    assert_eq!(parse_u16("+"), None);
    assert_eq!(parse_u16("-1"), None);
    assert_eq!(parse_u16("80a"), None);
    assert_eq!(parse_u16("99999999999999999999"), None);
    for text in ["0", "1", "443", "5000", "65535", "+7"] {
        assert_eq!(parse_u16(text), text.parse::<u16>().ok(), "{text}");
    }
}

#[test]
fn config_from_environment_values() {
    let c = Config::from_values(None, None, None, None);
    assert_eq!(c.host, "0.0.0.0");
    assert_eq!(c.port, 8080);
    assert_eq!(c.database_url, "sqlite::memory:");
    let c = Config::from_values(
        Some("127.0.0.1".to_string()),
        None,
        Some("5000".to_string()),
        Some("postgres://db".to_string()),
    );
    assert_eq!(c.host, "127.0.0.1");
    assert_eq!(c.port, 5000);
    assert_eq!(c.database_url, "postgres://db");
    let c = Config::from_values(None, Some("bad".to_string()), Some("5000".to_string()), None);
    assert_eq!(c.port, 8080);
}

#[test]
fn cell_urls_push_segments_onto_the_base() {
    let client = CelldClient::new("http://127.0.0.1:9876".to_string());
    assert_eq!(
        client.cell_url("looptask/docs-sync/docs", CellRequest::State).unwrap(),
        "http://127.0.0.1:9876/agents/looptask%2Fdocs-sync%2Fdocs/state"
    );
    let nested = CelldClient::new("http://celld.internal/api/".to_string());
    assert_eq!(
        nested.cell_url("c", CellRequest::ResidentCancel).unwrap(),
        "http://celld.internal/api/agents/c/resident/cancel"
    );
    match CelldClient::new("not a url".to_string()).cell_url("c", CellRequest::Inbox) {
        Err(Error::Config(m)) => assert!(m.starts_with("invalid celld base url: ")),
        other => panic!("unexpected {:?}", other),
    }
    match CelldClient::new("mailto:ops@example.com".to_string()).cell_url("c", CellRequest::Inbox) {
        Err(Error::Config(m)) => assert_eq!(m, "celld base url must be an absolute http(s) URL"),
        other => panic!("unexpected {:?}", other),
    }
}

#[test]
fn cell_url_outcomes_become_errors() {
    assert_eq!(cell_url_from(Ok("http://c/agents/x/state".to_string())).unwrap(), "http://c/agents/x/state");
    match cell_url_from(Err(Some("empty host".to_string()))) {
        Err(Error::Config(m)) => assert_eq!(m, "invalid celld base url: empty host"),
        other => panic!("unexpected {:?}", other),
    }
    match cell_url_from(Err(None)) {
        Err(Error::Config(m)) => assert_eq!(m, "celld base url must be an absolute http(s) URL"),
        other => panic!("unexpected {:?}", other),
    }
}

#[test]
fn replacing_an_empty_pattern_matches_std() {
    assert_eq!(replace_str("abc", "", "x"), "abc".replace("", "x"));
    assert_eq!(replace_str("", "", "x"), "x");
    assert_eq!(replace_str("a{b}{b}", "{b}", "-"), "a--");
}
