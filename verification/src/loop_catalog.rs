//! The catalog of loop templates and the validation of a project's loop.
use vstd::prelude::*;

use crate::models::{
    AgentProfile, DecisionRule, Duplicate, LoopBudget, LoopDefinition, LoopKind, LoopMode,
    LoopSafety, LoopStep, Project, StatePolicy, StopRules, Trigger, Verifier,
};
use crate::text::{
    concat, is_blank, is_white_space, join, join_strings, owned, string_views, trim, trim_end,
    trim_start,
};

verus! {

/// A ready-made loop that a project can adopt.
#[derive(Debug, Clone)]
pub struct LoopTemplate {
    pub id: String,
    pub name: String,
    pub kind: LoopKind,
    pub summary: String,
    pub definition: LoopDefinition,
    pub capability_tags: Vec<String>,
}

#[derive(Debug, Clone)]
pub struct LoopValidationRequest {
    pub project: Project,
    pub loop_name: Option<String>,
}

/// The verdict on a loop, with its stages and the guardrails that bind it.
#[derive(Debug, Clone)]
pub struct LoopValidationResponse {
    pub accepted: bool,
    pub summary: String,
    pub loop_definition: LoopDefinition,
    pub stages: Vec<LoopStage>,
    pub guardrails: Vec<String>,
}

#[derive(Debug, Clone)]
pub struct LoopStage {
    pub id: String,
    pub title: String,
    pub purpose: String,
    pub safety: String,
}

fn strings(items: &[&str]) -> (r: Vec<String>)
    ensures
        r@.len() == items@.len(),
        forall|i: int| 0 <= i < items@.len() ==> #[trigger] r@[i]@ == items@[i]@,
{
    let n = items.len();
    let mut r: Vec<String> = Vec::new();
    for i in 0..n
        invariant
            n == items@.len(),
            r@.len() == i,
            forall|j: int| 0 <= j < i ==> #[trigger] r@[j]@ == items@[j]@,
    {
        r.push(owned(items[i]));
    }
    r
}

/// The loop definition of the documentation-lifecycle patrol template.
pub open spec fn is_docs_patrol_definition(d: LoopDefinition) -> bool {
    &&& d.name@ == "docs-lifecycle-patrol"@
    &&& d.kind == LoopKind::DocsSync
    &&& d.goal@ == "巡检文档生命周期，机械修复断链/残缺内容，并将候审事项交给人工裁决"@
    &&& d.summary@ == "对文档仓库进行隔离、可验证、可回收的生命周期巡检"@
    &&& d.mode == LoopMode::HumanGated
    &&& d.trigger is Manual
    &&& d.agent.cell_id_template@ == "{project}/{loop}/{agent}"@
    &&& d.agent.sandbox_required
    &&& string_views(d.agent.allowed_tools@) == seq!["git"@, "bash"@, "gh"@, "read-repo"@]
    &&& d.agent.human_gate
    &&& d.verifiers@.len() == 2
    &&& d.verifiers@[0].name@ == "docs-lifecycle"@
    &&& string_views(d.verifiers@[0].command@) == seq![
        "bash"@,
        "scripts/check_docs_lifecycle.sh"@,
    ]
    &&& d.verifiers@[0].timeout_seconds == 900
    &&& d.verifiers@[1].name@ == "release-sync"@
    &&& string_views(d.verifiers@[1].command@) == seq!["bash"@, "scripts/check_release_sync.sh"@]
    &&& d.verifiers@[1].timeout_seconds == 900
    &&& d.state.hot_sqlite_scope@ == "agent-cell"@
    &&& d.state.artifact_uri_prefix@ == "r2://agents/{agent}/artifacts/"@
    &&& d.state.hot_message_limit == 50
    &&& d.stop_rules.max_steps == 12
    &&& d.stop_rules.max_consecutive_failures == 2
    &&& d.stop_rules.large_file_lines == 500
    &&& string_views(d.escalation_rules@) == seq![
        "发现白名单外路径改动需求时立即停止并开 issue"@,
        "发现 landed:/promote:/artifact: 时不裁决，只提交证据"@,
    ]
    &&& docs_patrol_steps_are(d.steps@)
    &&& docs_patrol_rules_are(d.decision_rules@)
    &&& d.budget.max_duration_minutes == 30
    &&& d.budget.max_tool_calls == 200
    &&& string_views(d.safety.protected_branches@) == seq!["main"@, "master"@]
    &&& string_views(d.safety.allowed_paths@) == seq!["docs/**"@, ".agents/**"@]
    &&& string_views(d.safety.forbidden_actions@) == seq![
        "merge"@,
        "tag"@,
        "push-main"@,
        "write-outside-allowlist"@,
    ]
    &&& d.safety.cleanup_policy@
        == "no-pr-delete-branch-and-worktree; pr-open-keep-branch-remove-worktree"@
}

/// Whether a step has the given id, title, purpose, command, allowed paths
/// and forbidden actions.
pub open spec fn step_is(
    s: LoopStep,
    id: Seq<char>,
    title: Seq<char>,
    purpose: Seq<char>,
    command: Seq<Seq<char>>,
    allowed_paths: Seq<Seq<char>>,
    forbidden_actions: Seq<Seq<char>>,
) -> bool {
    &&& s.id@ == id
    &&& s.title@ == title
    &&& s.purpose@ == purpose
    &&& string_views(s.command@) == command
    &&& string_views(s.allowed_paths@) == allowed_paths
    &&& string_views(s.forbidden_actions@) == forbidden_actions
}

/// Whether a decision rule has the given signal, action and required
/// evidence.
pub open spec fn rule_is(r: DecisionRule, signal: Seq<char>, action: Seq<char>, evidence: Seq<Seq<char>>) -> bool {
    &&& r.signal@ == signal
    &&& r.action@ == action
    &&& string_views(r.evidence_required@) == evidence
}

/// The six steps of the documentation-lifecycle patrol.
pub open spec fn docs_patrol_steps_are(steps: Seq<LoopStep>) -> bool {
    let none = Seq::<Seq<char>>::empty();
    &&& steps.len() == 6
    &&& step_is(
        steps[0],
        "isolate"@,
        "同步并创建隔离 worktree"@,
        "基于 origin/main 最新提交创建独立分支，禁止触碰既有检出目录与未提交状态"@,
        seq!["git"@, "fetch"@, "origin"@],
        none,
        seq!["read-or-write-existing-checkout"@, "touch-uncommitted-state"@],
    )
    &&& step_is(
        steps[1],
        "inspect"@,
        "运行文档生命周期巡检"@,
        "在独立 worktree 执行检查脚本，并按退出码与信号分类"@,
        seq!["bash"@, "scripts/check_docs_lifecycle.sh"@],
        none,
        none,
    )
    &&& step_is(
        steps[2],
        "repair"@,
        "机械修复断链与残缺"@,
        "仅允许修改 docs/** 与 .agents/**，修复后必须双绿"@,
        seq![
            "bash"@,
            "scripts/check_docs_lifecycle.sh"@,
            "&&"@,
            "bash"@,
            "scripts/check_release_sync.sh"@,
        ],
        seq!["docs/**"@, ".agents/**"@],
        seq!["architecture-refactor"@],
    )
    &&& step_is(
        steps[3],
        "escalate"@,
        "候审信号交人工裁决"@,
        "对 landed/promote/artifact 只记录证据并创建 issue，不自动裁决"@,
        seq!["gh"@, "issue"@, "create"@],
        none,
        seq!["auto-adjudicate"@],
    )
    &&& step_is(
        steps[4],
        "budget"@,
        "硬预算与现场报告"@,
        "30 分钟或 200 次工具调用任一触顶，立即停止并创建现场 issue"@,
        none,
        none,
        none,
    )
    &&& step_is(
        steps[5],
        "cleanup"@,
        "清理 worktree"@,
        "未开 PR 删除 worktree 与分支，开 PR 只保留分支并清理 worktree"@,
        seq!["git"@, "worktree"@, "remove"@],
        none,
        none,
    )
}

/// The four decision rules of the documentation-lifecycle patrol.
pub open spec fn docs_patrol_rules_are(rules: Seq<DecisionRule>) -> bool {
    &&& rules.len() == 4
    &&& rule_is(
        rules[0],
        "exit_code == 0"@,
        "追加 green 日志并结束，不开 PR/issue"@,
        seq!["耗时"@, "调用数"@],
    )
    &&& rule_is(
        rules[1],
        "broken: or mangled:"@,
        "白名单内机械修复，双绿后推送分支并创建 loop(docs): PR"@,
        seq!["发现清单"@, "修复方式"@, "预算消耗"@],
    )
    &&& rule_is(
        rules[2],
        "landed: or promote: or artifact:"@,
        "创建 [loop-adjudication] issue，不修改"@,
        seq!["证据清单"@, "建议裁决问题"@],
    )
    &&& rule_is(
        rules[3],
        "budget exceeded"@,
        "立即停止并创建现场 issue，追加 budget-exceeded 日志"@,
        seq!["已完成"@, "未完成"@],
    )
}

/// The documentation-lifecycle patrol template.
pub open spec fn is_docs_patrol_template(t: LoopTemplate) -> bool {
    &&& t.id@ == "docs-lifecycle-patrol"@
    &&& t.name@ == "文档生命周期巡检车道"@
    &&& t.kind == LoopKind::DocsSync
    &&& t.summary@ == t.definition.summary@
    &&& is_docs_patrol_definition(t.definition)
    &&& string_views(t.capability_tags@) == seq![
        "隔离 worktree"@,
        "机械修复"@,
        "双重验证"@,
        "人工裁决"@,
    ]
}

/// The catalog's template is a loop that validation accepts: it has a name
/// and at least one step.
pub proof fn law_template_passes_validation(d: LoopDefinition)
    requires
        is_docs_patrol_definition(d),
    ensures
        trim(d.name@).len() > 0,
        d.steps@.len() > 0,
{
    reveal_strlit("docs-lifecycle-patrol");
    let n = d.name@;
    assert(n.len() > 0 && !is_white_space(n[0]) && !is_white_space(n.last()));
    assert(trim_start(n) == n);
    assert(trim_end(n) == n);
}

fn step(
    id: &str,
    title: &str,
    purpose: &str,
    command: Vec<String>,
    allowed_paths: Vec<String>,
    forbidden_actions: Vec<String>,
) -> (s: LoopStep)
    ensures
        s.id@ == id@,
        s.title@ == title@,
        s.purpose@ == purpose@,
        s.command == command,
        s.allowed_paths == allowed_paths,
        s.forbidden_actions == forbidden_actions,
{
    LoopStep {
        id: owned(id),
        title: owned(title),
        purpose: owned(purpose),
        command,
        allowed_paths,
        forbidden_actions,
    }
}

fn rule(signal: &str, action: &str, evidence_required: Vec<String>) -> (r: DecisionRule)
    ensures
        r.signal@ == signal@,
        r.action@ == action@,
        r.evidence_required == evidence_required,
{
    DecisionRule { signal: owned(signal), action: owned(action), evidence_required }
}

fn docs_patrol_steps() -> (steps: Vec<LoopStep>)
    ensures
        docs_patrol_steps_are(steps@),
{
    let isolate_command = strings(&["git", "fetch", "origin"]);
    assert(string_views(isolate_command@) =~= seq!["git"@, "fetch"@, "origin"@]);
    let isolate_forbidden = strings(
        &[
            "read-or-write-existing-checkout",
            "touch-uncommitted-state",
        ],
    );
    assert(string_views(isolate_forbidden@) =~= seq![
        "read-or-write-existing-checkout"@,
        "touch-uncommitted-state"@,
    ]);
    let inspect_command = strings(&["bash", "scripts/check_docs_lifecycle.sh"]);
    assert(string_views(inspect_command@) =~= seq!["bash"@, "scripts/check_docs_lifecycle.sh"@]);
    let repair_command = strings(
        &[
            "bash",
            "scripts/check_docs_lifecycle.sh",
            "&&",
            "bash",
            "scripts/check_release_sync.sh",
        ],
    );
    assert(string_views(repair_command@) =~= seq![
        "bash"@,
        "scripts/check_docs_lifecycle.sh"@,
        "&&"@,
        "bash"@,
        "scripts/check_release_sync.sh"@,
    ]);
    let repair_paths = strings(&["docs/**", ".agents/**"]);
    assert(string_views(repair_paths@) =~= seq!["docs/**"@, ".agents/**"@]);
    let repair_forbidden = strings(&["architecture-refactor"]);
    assert(string_views(repair_forbidden@) =~= seq!["architecture-refactor"@]);
    let escalate_command = strings(&["gh", "issue", "create"]);
    assert(string_views(escalate_command@) =~= seq!["gh"@, "issue"@, "create"@]);
    let escalate_forbidden = strings(&["auto-adjudicate"]);
    assert(string_views(escalate_forbidden@) =~= seq!["auto-adjudicate"@]);
    let cleanup_command = strings(&["git", "worktree", "remove"]);
    assert(string_views(cleanup_command@) =~= seq!["git"@, "worktree"@, "remove"@]);
    let steps = vec![
        step(
            "isolate",
            "同步并创建隔离 worktree",
            "基于 origin/main 最新提交创建独立分支，禁止触碰既有检出目录与未提交状态",
            isolate_command,
            Vec::new(),
            isolate_forbidden,
        ),
        step(
            "inspect",
            "运行文档生命周期巡检",
            "在独立 worktree 执行检查脚本，并按退出码与信号分类",
            inspect_command,
            Vec::new(),
            Vec::new(),
        ),
        step(
            "repair",
            "机械修复断链与残缺",
            "仅允许修改 docs/** 与 .agents/**，修复后必须双绿",
            repair_command,
            repair_paths,
            repair_forbidden,
        ),
        step(
            "escalate",
            "候审信号交人工裁决",
            "对 landed/promote/artifact 只记录证据并创建 issue，不自动裁决",
            escalate_command,
            Vec::new(),
            escalate_forbidden,
        ),
        step(
            "budget",
            "硬预算与现场报告",
            "30 分钟或 200 次工具调用任一触顶，立即停止并创建现场 issue",
            Vec::new(),
            Vec::new(),
            Vec::new(),
        ),
        step(
            "cleanup",
            "清理 worktree",
            "未开 PR 删除 worktree 与分支，开 PR 只保留分支并清理 worktree",
            cleanup_command,
            Vec::new(),
            Vec::new(),
        ),
    ];
    assert(string_views(Seq::<String>::empty()) =~= Seq::<Seq<char>>::empty());
    steps
}

fn docs_patrol_rules() -> (rules: Vec<DecisionRule>)
    ensures
        docs_patrol_rules_are(rules@),
{
    let green = strings(&["耗时", "调用数"]);
    assert(string_views(green@) =~= seq!["耗时"@, "调用数"@]);
    let broken = strings(&["发现清单", "修复方式", "预算消耗"]);
    assert(string_views(broken@) =~= seq!["发现清单"@, "修复方式"@, "预算消耗"@]);
    let landed = strings(&["证据清单", "建议裁决问题"]);
    assert(string_views(landed@) =~= seq!["证据清单"@, "建议裁决问题"@]);
    let budget = strings(&["已完成", "未完成"]);
    assert(string_views(budget@) =~= seq!["已完成"@, "未完成"@]);
    vec![
        rule("exit_code == 0", "追加 green 日志并结束，不开 PR/issue", green),
        rule(
            "broken: or mangled:",
            "白名单内机械修复，双绿后推送分支并创建 loop(docs): PR",
            broken,
        ),
        rule("landed: or promote: or artifact:", "创建 [loop-adjudication] issue，不修改", landed),
        rule("budget exceeded", "立即停止并创建现场 issue，追加 budget-exceeded 日志", budget),
    ]
}

fn docs_patrol_definition() -> (d: LoopDefinition)
    ensures
        is_docs_patrol_definition(d),
{
    let allowed_tools = strings(&["git", "bash", "gh", "read-repo"]);
    let lifecycle_command = strings(&["bash", "scripts/check_docs_lifecycle.sh"]);
    let release_command = strings(&["bash", "scripts/check_release_sync.sh"]);
    let escalation_rules = strings(
        &[
            "发现白名单外路径改动需求时立即停止并开 issue",
            "发现 landed:/promote:/artifact: 时不裁决，只提交证据",
        ],
    );
    let protected_branches = strings(&["main", "master"]);
    let safety_paths = strings(&["docs/**", ".agents/**"]);
    let forbidden = strings(&["merge", "tag", "push-main", "write-outside-allowlist"]);
    assert(string_views(allowed_tools@) =~= seq!["git"@, "bash"@, "gh"@, "read-repo"@]);
    assert(string_views(lifecycle_command@) =~= seq!["bash"@, "scripts/check_docs_lifecycle.sh"@]);
    assert(string_views(release_command@) =~= seq!["bash"@, "scripts/check_release_sync.sh"@]);
    assert(string_views(escalation_rules@) =~= seq![
        "发现白名单外路径改动需求时立即停止并开 issue"@,
        "发现 landed:/promote:/artifact: 时不裁决，只提交证据"@,
    ]);
    assert(string_views(protected_branches@) =~= seq!["main"@, "master"@]);
    assert(string_views(safety_paths@) =~= seq!["docs/**"@, ".agents/**"@]);
    assert(string_views(forbidden@) =~= seq![
        "merge"@,
        "tag"@,
        "push-main"@,
        "write-outside-allowlist"@,
    ]);
    let verifiers = vec![
        Verifier {
            name: owned("docs-lifecycle"),
            command: lifecycle_command,
            timeout_seconds: 900,
        },
        Verifier { name: owned("release-sync"), command: release_command, timeout_seconds: 900 },
    ];
    LoopDefinition {
        name: owned("docs-lifecycle-patrol"),
        kind: LoopKind::DocsSync,
        goal: owned("巡检文档生命周期，机械修复断链/残缺内容，并将候审事项交给人工裁决"),
        summary: owned("对文档仓库进行隔离、可验证、可回收的生命周期巡检"),
        mode: LoopMode::HumanGated,
        trigger: Trigger::Manual,
        agent: AgentProfile {
            cell_id_template: owned("{project}/{loop}/{agent}"),
            sandbox_required: true,
            allowed_tools,
            human_gate: true,
        },
        verifiers,
        state: StatePolicy::default(),
        stop_rules: StopRules { max_steps: 12, max_consecutive_failures: 2, large_file_lines: 500 },
        escalation_rules,
        steps: docs_patrol_steps(),
        decision_rules: docs_patrol_rules(),
        budget: LoopBudget { max_duration_minutes: 30, max_tool_calls: 200 },
        safety: LoopSafety {
            protected_branches,
            allowed_paths: safety_paths,
            forbidden_actions: forbidden,
            cleanup_policy: owned(
                "no-pr-delete-branch-and-worktree; pr-open-keep-branch-remove-worktree",
            ),
        },
    }
}

/// The documentation-lifecycle patrol: an isolated, verifiable and
/// reclaimable patrol of a documentation repository, gated by a human.
pub fn docs_lifecycle_patrol() -> (t: LoopTemplate)
    ensures
        is_docs_patrol_template(t),
{
    let definition = docs_patrol_definition();
    let capability_tags = strings(&["隔离 worktree", "机械修复", "双重验证", "人工裁决"]);
    assert(string_views(capability_tags@) =~= seq![
        "隔离 worktree"@,
        "机械修复"@,
        "双重验证"@,
        "人工裁决"@,
    ]);
    LoopTemplate {
        id: owned("docs-lifecycle-patrol"),
        name: owned("文档生命周期巡检车道"),
        kind: LoopKind::DocsSync,
        summary: definition.summary.clone(),
        definition,
        capability_tags,
    }
}

/// The catalog: the documentation-lifecycle patrol alone.
pub fn templates() -> (r: Vec<LoopTemplate>)
    ensures
        r@.len() == 1,
        is_docs_patrol_template(r@[0]),
{
    vec![docs_lifecycle_patrol()]
}

/// The template of the catalog with the given id.
pub fn find_template(id: &str) -> (r: Option<LoopTemplate>)
    ensures
        id@ == "docs-lifecycle-patrol"@ ==> (r matches Some(t) && is_docs_patrol_template(t)),
        id@ != "docs-lifecycle-patrol"@ ==> r is None,
{
    let mut all = templates();
    let t = all.swap_remove(0);
    if t.id == owned(id) {
        Some(t)
    } else {
        None
    }
}

/// The index of the first loop named `name`, or -1.
pub open spec fn position_of(ls: Seq<LoopDefinition>, name: Seq<char>) -> int
    decreases ls.len(),
{
    if ls.len() == 0 {
        -1
    } else {
        let p = position_of(ls.drop_last(), name);
        if p >= 0 {
            p
        } else if ls.last().name@ == name {
            ls.len() - 1
        } else {
            -1
        }
    }
}

/// The index of the loop that validation looks at: the first loop with the
/// requested name, else the first loop, else -1 for the catalog template.
pub open spec fn selected_index(project: Project, loop_name: Option<Seq<char>>) -> int {
    let found = match loop_name {
        Some(n) => position_of(project.loops@, n),
        None => -1,
    };
    if found >= 0 {
        found
    } else if project.loops@.len() > 0 {
        0
    } else {
        -1
    }
}

/// The guardrails that every loop is bound by.
pub open spec fn base_guardrails() -> Seq<Seq<char>> {
    seq![
        "永不 merge、永不打 tag、永不 push main"@,
        "所有变更必须先在独立 worktree 中完成"@,
        "预算触顶立即停止，并创建 budget-exceeded issue"@,
    ]
}

/// How a validated loop's step is shown as a stage.
pub open spec fn stage_matches(step: LoopStep, stage: LoopStage) -> bool {
    &&& stage.id@ == step.id@
    &&& stage.title@ == step.title@
    &&& stage.purpose@ == step.purpose@
    &&& stage.safety@ == (if step.allowed_paths@.len() == 0 {
        "只读或受控操作"@
    } else {
        "白名单："@ + join(string_views(step.allowed_paths@), "、"@)
    })
}

/// The response that validation gives once the loop `d` is selected.
pub open spec fn validation_matches(d: LoopDefinition, r: LoopValidationResponse) -> bool {
    &&& d.same_as(&r.loop_definition)
    &&& r.accepted == (trim(d.name@).len() > 0 && d.steps@.len() > 0)
    &&& r.summary@ == (if d.summary@.len() == 0 {
        d.goal@
    } else {
        d.summary@
    })
    &&& r.stages@.len() == d.steps@.len()
    &&& forall|i: int| 0 <= i < d.steps@.len() ==> stage_matches(d.steps@[i], #[trigger] r.stages@[i])
    &&& string_views(r.guardrails@) == base_guardrails() + string_views(d.safety.forbidden_actions@)
}

fn stage_of(step: &LoopStep) -> (s: LoopStage)
    ensures
        stage_matches(*step, s),
{
    let safety = if step.allowed_paths.len() == 0 {
        owned("只读或受控操作")
    } else {
        let joined = join_strings(&step.allowed_paths, "、");
        concat("白名单：", joined.as_str())
    };
    LoopStage {
        id: step.id.clone(),
        title: step.title.clone(),
        purpose: step.purpose.clone(),
        safety,
    }
}

fn respond_for(selected: &LoopDefinition) -> (r: LoopValidationResponse)
    ensures
        validation_matches(*selected, r),
{
    let mut guardrails = strings(
        &[
            "永不 merge、永不打 tag、永不 push main",
            "所有变更必须先在独立 worktree 中完成",
            "预算触顶立即停止，并创建 budget-exceeded issue",
        ],
    );
    assert(string_views(guardrails@) =~= base_guardrails());
    let forbidden = &selected.safety.forbidden_actions;
    let m = forbidden.len();
    for i in 0..m
        invariant
            m == forbidden@.len(),
            string_views(guardrails@) == base_guardrails() + string_views(forbidden@.take(i as int)),
    {
        let ghost before = guardrails@;
        guardrails.push(forbidden[i].clone());
        proof {
            assert(string_views(guardrails@) =~= string_views(before).push(forbidden@[i as int]@));
            assert(forbidden@.take(i + 1) =~= forbidden@.take(i as int).push(forbidden@[i as int]));
            assert(string_views(guardrails@) =~= base_guardrails() + string_views(
                forbidden@.take(i + 1),
            ));
        }
    }
    proof {
        assert(forbidden@.take(m as int) =~= forbidden@);
    }
    let accepted = !is_blank(selected.name.as_str()) && selected.steps.len() > 0;
    let summary = if selected.summary.as_str().is_empty() {
        selected.goal.clone()
    } else {
        selected.summary.clone()
    };
    let n = selected.steps.len();
    let mut stages: Vec<LoopStage> = Vec::new();
    for i in 0..n
        invariant
            n == selected.steps@.len(),
            stages@.len() == i,
            forall|j: int| 0 <= j < i ==> stage_matches(selected.steps@[j], #[trigger] stages@[j]),
    {
        stages.push(stage_of(&selected.steps[i]));
    }
    let loop_definition = selected.duplicate();
    LoopValidationResponse { accepted, summary, loop_definition, stages, guardrails }
}

/// Validates the loop named `loop_name` of `project`: the first loop with
/// that name, else the project's first loop, else the catalog's template.
/// The loop is accepted when it has a name and at least one step.
pub fn validate(project: &Project, loop_name: Option<&str>) -> (r: LoopValidationResponse)
    ensures
        ({
            let idx = selected_index(
                *project,
                match loop_name {
                    Some(n) => Some(n@),
                    None => None,
                },
            );
            if idx >= 0 {
                validation_matches(project.loops@[idx], r)
            } else {
                exists|d: LoopDefinition| is_docs_patrol_definition(d) && validation_matches(d, r)
            }
        }),
        loop_name is None && project.loops@.len() > 0 ==> project.loops@[0].same_as(
            &r.loop_definition,
        ),
        project.loops@.len() > 0 ==> exists|i: int|
            0 <= i < project.loops@.len() && #[trigger] project.loops@[i].same_as(
                &r.loop_definition,
            ),
{
    proof {
        law_validation_selects_project_loop(
            *project,
            match loop_name {
                Some(n) => Some(n@),
                None => None,
            },
        );
    }
    let n = project.loops.len();
    let found = match loop_name {
        Some(name) => find_loop_index(&project.loops, name),
        None => None,
    };
    match found {
        Some(i) => respond_for(&project.loops[i]),
        None => {
            if n > 0 {
                respond_for(&project.loops[0])
            } else {
                let d = docs_patrol_definition();
                let r = respond_for(&d);
                assert(is_docs_patrol_definition(d) && validation_matches(d, r));
                r
            }
        },
    }
}

/// The index of the first loop named `name`.
pub fn find_loop_index(loops: &Vec<LoopDefinition>, name: &str) -> (r: Option<usize>)
    ensures
        match r {
            Some(i) => i < loops@.len() && position_of(loops@, name@) == i,
            None => position_of(loops@, name@) == -1,
        },
{
    let wanted = owned(name);
    let n = loops.len();
    for i in 0..n
        invariant
            n == loops@.len(),
            wanted@ == name@,
            position_of(loops@.take(i as int), name@) == -1,
    {
        proof {
            assert(loops@.take(i + 1).drop_last() =~= loops@.take(i as int));
        }
        if loops[i].name == wanted {
            proof {
                lemma_prefix_position(loops@, name@, i as int);
            }
            return Some(i);
        }
    }
    proof {
        assert(loops@.take(n as int) =~= loops@);
    }
    None
}

/// Where the first loop of a prefix with a name sits, there it sits in the
/// whole sequence.
/// `position_of` finds the first loop of the name, and only when there is
/// one.
pub proof fn lemma_position_of(ls: Seq<LoopDefinition>, name: Seq<char>)
    ensures
        -1 <= position_of(ls, name) < ls.len(),
        position_of(ls, name) >= 0 ==> ls[position_of(ls, name)].name@ == name && forall|j: int|
            0 <= j < position_of(ls, name) ==> #[trigger] ls[j].name@ != name,
        position_of(ls, name) == -1 ==> forall|j: int| 0 <= j < ls.len() ==> #[trigger] ls[j].name@
            != name,
    decreases ls.len(),
{
    if ls.len() > 0 {
        lemma_position_of(ls.drop_last(), name);
        assert forall|j: int| 0 <= j < ls.len() - 1 implies ls[j] == ls.drop_last()[j] by {}
    }
}

/// Validation looks at the project's own loops whenever the project has
/// one: the first loop with the requested name when there is one, and the
/// project's first loop when no name is requested or no loop has it. Only a
/// project without loops is validated against the catalog's template.
pub proof fn law_validation_selects_project_loop(project: Project, loop_name: Option<Seq<char>>)
    ensures
        (selected_index(project, loop_name) >= 0) == (project.loops@.len() > 0),
        selected_index(project, loop_name) < project.loops@.len(),
        loop_name is None && project.loops@.len() > 0 ==> selected_index(project, loop_name) == 0,
        loop_name is Some && (exists|i: int|
            0 <= i < project.loops@.len() && #[trigger] project.loops@[i].name@ == loop_name->0)
            ==> ({
            let k = selected_index(project, loop_name);
            &&& project.loops@[k].name@ == loop_name->0
            &&& forall|j: int| 0 <= j < k ==> #[trigger] project.loops@[j].name@ != loop_name->0
        }),
        loop_name is Some && project.loops@.len() > 0 && (forall|i: int|
            0 <= i < project.loops@.len() ==> #[trigger] project.loops@[i].name@ != loop_name->0)
            ==> selected_index(project, loop_name) == 0,
{
    if let Some(n) = loop_name {
        lemma_position_of(project.loops@, n);
    }
}

proof fn lemma_prefix_position(ls: Seq<LoopDefinition>, name: Seq<char>, i: int)
    requires
        0 <= i < ls.len(),
        position_of(ls.take(i), name) == -1,
        ls[i].name@ == name,
    ensures
        position_of(ls, name) == i,
    decreases ls.len(),
{
    assert(ls.take(i + 1).drop_last() =~= ls.take(i));
    assert(position_of(ls.take(i + 1), name) == i);
    if ls.len() > i + 1 {
        assert(ls.drop_last().take(i) =~= ls.take(i));
        lemma_prefix_position(ls.drop_last(), name, i);
    } else {
        assert(ls.take(i + 1) =~= ls);
    }
}

} // verus!
