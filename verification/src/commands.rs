//! The interactive front end's decisions: slash commands, the sandbox of
//! each mode, and which tools a turn registers.
use vstd::prelude::*;
use crate::debug::{entries_summarizable, spec_summary, DebugEntry, OmdDebugLogger};
use crate::policy::{spec_allows_all, spec_phase_tools, spec_tool_allowed, PhaseToolPolicy};
use crate::state::OmdSessionState;
use crate::text::{str_views, string_from, string_views, trim, trim_bounds, chars_of, string_of_range};
use crate::types::{spec_from_agent_and_name, OmdPhase};

verus! {

/// The modes of the interactive front end.
#[derive(Debug, Clone, Copy, PartialEq, Eq, Structural)]
pub enum AppMode {
    Plan,
    Agent,
    Yolo,
    OmdTongtian,
    OmdFuxi,
    OmdPangu,
    OmdHongjun,
}

/// The mode runs one of the orchestrator agents.
pub open spec fn is_omd_mode(m: AppMode) -> bool {
    m == AppMode::OmdTongtian || m == AppMode::OmdFuxi || m == AppMode::OmdPangu || m == AppMode::OmdHongjun
}

/// An action a command asks the front end to take.
#[derive(Debug)]
pub enum AppAction {
    /// Force the session to the phase called `target_phase`.
    OmdPhaseComplete { target_phase: String },
}

/// What a slash command answers.
#[derive(Debug)]
pub enum CommandResult {
    Message(String),
    Error(String),
    Action(AppAction),
    /// Switch to `mode`, then show `message`.
    SwitchMode { mode: AppMode, message: String },
}

/// The sandbox shell commands run in.
#[derive(Debug)]
pub enum SandboxPolicy {
    /// No writes, no network.
    ReadOnly,
    WorkspaceWrite { writable_roots: Vec<String>, network_access: bool, exclude_tmpdir: bool, exclude_slash_tmp: bool },
    DangerFullAccess,
}

/// The sandbox of a mode: read-only for planning, for the strategist and
/// for the router; the workspace writable (with network) for the agent;
/// full access for YOLO and for the two executors.
pub fn sandbox_policy_for_mode(mode: AppMode, workspace: &str) -> (r: SandboxPolicy)
    ensures
        match mode {
            AppMode::Plan | AppMode::OmdFuxi | AppMode::OmdHongjun => r is ReadOnly,
            AppMode::Agent => r matches SandboxPolicy::WorkspaceWrite {
                writable_roots,
                network_access,
                exclude_tmpdir,
                exclude_slash_tmp,
            } && string_views(writable_roots@) == seq![workspace@] && network_access && !exclude_tmpdir
                && !exclude_slash_tmp,
            AppMode::Yolo | AppMode::OmdTongtian | AppMode::OmdPangu => r is DangerFullAccess,
        },
{
    match mode {
        AppMode::Plan | AppMode::OmdFuxi | AppMode::OmdHongjun => SandboxPolicy::ReadOnly,
        AppMode::Agent => {
            let mut roots: Vec<String> = Vec::new();
            roots.push(string_from(workspace));
            assert(string_views(roots@) =~= seq![workspace@]);
            SandboxPolicy::WorkspaceWrite {
                writable_roots: roots,
                network_access: true,
                exclude_tmpdir: false,
                exclude_slash_tmp: false,
            }
        },
        AppMode::Yolo | AppMode::OmdTongtian | AppMode::OmdPangu => SandboxPolicy::DangerFullAccess,
    }
}

/// Handles `/omd-phase-complete [target]`: the user's escape hatch for a
/// stalled phase, available only in the orchestrator modes.
pub fn omd_phase_complete(mode: AppMode, arg: Option<&str>) -> (r: CommandResult)
    ensures
        !is_omd_mode(mode) ==> (r matches CommandResult::Error(m) && m@
            == "Not in an OMD mode. Switch to an OMD mode first."@),
        is_omd_mode(mode) ==> match arg {
            Some(t) => r matches CommandResult::Action(AppAction::OmdPhaseComplete { target_phase })
                && target_phase@ == trim(t@),
            None => r matches CommandResult::Error(m) && m@
                == "Usage: /omd-phase-complete <target_phase>. This is an escape hatch for stalled phases."@,
        },
{
    match mode {
        AppMode::OmdTongtian | AppMode::OmdFuxi | AppMode::OmdPangu | AppMode::OmdHongjun => {},
        _ => {
            return CommandResult::Error(string_from("Not in an OMD mode. Switch to an OMD mode first."));
        },
    }
    match arg {
        Some(target) => {
            let v = chars_of(target);
            let (a, b) = trim_bounds(&v, 0, v.len());
            assert(v@.subrange(0, v@.len() as int) =~= v@);
            CommandResult::Action(AppAction::OmdPhaseComplete { target_phase: string_of_range(&v, a, b) })
        },
        None => CommandResult::Error(
            string_from("Usage: /omd-phase-complete <target_phase>. This is an escape hatch for stalled phases."),
        ),
    }
}

/// What looking for the newest plan under `.omd/plans/` found.
#[derive(Debug)]
pub enum PlanLookup {
    /// There is no `.omd/plans/` directory.
    NoDirectory,
    /// The directory holds no plan.
    Empty,
    /// The path of the most recently modified plan.
    Newest(String),
}

/// Handles `/omd-execute [plan]`: switches to the executor with the given
/// plan, else with the newest plan found.
pub fn omd_execute(arg: Option<&str>, newest: PlanLookup) -> (r: CommandResult)
    ensures
        match arg {
            Some(p) => r matches CommandResult::SwitchMode { mode, message } && mode == AppMode::OmdPangu
                && message@ == "Switched to Pangu mode. Plan: "@ + p@,
            None => match newest {
                PlanLookup::Newest(p) => r matches CommandResult::SwitchMode { mode, message } && mode
                    == AppMode::OmdPangu && message@ == "Switched to Pangu mode. Plan: "@ + p@,
                PlanLookup::Empty => r matches CommandResult::Error(m) && m@
                    == "No plans found in .omd/plans/. Create one with Fuxi first."@,
                PlanLookup::NoDirectory => r matches CommandResult::Error(m) && m@
                    == "No .omd/plans/ directory. Create a plan with Fuxi first, or specify: /omd-execute <path>"@,
            },
        },
{
    let plan_path = match arg {
        Some(p) => string_from(p),
        None => match newest {
            PlanLookup::Newest(p) => p,
            PlanLookup::Empty => {
                return CommandResult::Error(string_from("No plans found in .omd/plans/. Create one with Fuxi first."));
            },
            PlanLookup::NoDirectory => {
                return CommandResult::Error(
                    string_from("No .omd/plans/ directory. Create a plan with Fuxi first, or specify: /omd-execute <path>"),
                );
            },
        },
    };
    let mut message = string_from("Switched to Pangu mode. Plan: ");
    crate::text::append_string(&mut message, &plan_path);
    CommandResult::SwitchMode { mode: AppMode::OmdPangu, message }
}

/// The tools of the session's phase, by name (none when the snapshot
/// names no phase of its agent).
pub open spec fn session_tools(s: OmdSessionState) -> Seq<Seq<char>> {
    match spec_from_agent_and_name(s.agent@, s.phase@) {
        Some(p) => spec_phase_tools(p),
        None => seq![],
    }
}

/// Handles `/omd-debug`: the debug summary of the current session, given
/// its snapshot (if a session is active) and the recent debug log
/// `entries`; without a session and without entries, a short notice.
pub fn omd_debug(logger: &OmdDebugLogger, state: Option<&OmdSessionState>, entries: &[DebugEntry]) -> (r: String)
    requires
        entries_summarizable(entries@),
    ensures
        match state {
            Some(s) => r@ == spec_summary(s.agent@, s.phase@, s.session_id@, s.started_at@, session_tools(*s), entries@),
            None => if entries@.len() == 0 {
                r@ == "=== OMD Debug Status ===\nNo active OMD session and no debug events found.\nStart an OMD mode to begin logging."@
            } else {
                r@ == spec_summary("unknown"@, "unknown"@, "none"@, "unknown"@, seq![], entries@)
            },
        },
{
    match state {
        Some(s) => {
            let tools: Vec<&'static str> = match OmdPhase::from_agent_and_name(s.agent.as_str(), s.phase.as_str()) {
                Some(p) => {
                    let policy = PhaseToolPolicy::for_phase(&p);
                    let list = policy.allowed_list();
                    let mut v: Vec<&'static str> = Vec::new();
                    let mut k: usize = 0;
                    while k < list.len()
                        invariant
                            k <= list.len(),
                            v@ == list@.take(k as int),
                        decreases list.len() - k,
                    {
                        v.push(list[k]);
                        assert(v@ =~= list@.take(k + 1));
                        k += 1;
                    }
                    assert(list@.take(list@.len() as int) =~= list@);
                    v
                },
                None => Vec::new(),
            };
            assert(str_views(tools@) =~= session_tools(*s));
            logger.format_summary(
                s.agent.as_str(),
                s.phase.as_str(),
                s.session_id.as_str(),
                s.started_at.as_str(),
                tools.as_slice(),
                entries,
            )
        },
        None => {
            if entries.len() == 0 {
                return string_from(
                    "=== OMD Debug Status ===\nNo active OMD session and no debug events found.\nStart an OMD mode to begin logging.",
                );
            }
            let none: Vec<&'static str> = Vec::new();
            assert(str_views(none@) =~= Seq::<Seq<char>>::empty());
            logger.format_summary("unknown", "unknown", "none", "unknown", none.as_slice(), entries)
        },
    }
}

// ───────────────────────────── tool registry ─────────────────────────────

/// A group of tools a turn can register.
#[derive(Debug, Clone, Copy, PartialEq, Eq, Structural)]
pub enum ToolGroup {
    OmdPhaseComplete,
    OmdCheckpoint,
    OmdStateRead,
    ReadOnlyFileTools,
    SearchTools,
    GitTools,
    ShellTools,
    /// The agent's standard tools, with or without the shell.
    AgentTools(bool),
    GitHistoryTools,
    DiagnosticsTool,
    SkillTools,
    ValidationTools,
    HandleTools,
    RuntimeReadOnlyTaskTools,
    TodoTool,
    PlanTool,
    ReviewTool,
    UserInputTool,
    ParallelTool,
    RecallArchiveTool,
    RlmTool,
    FimTool,
    PatchTools,
    WebTools,
    RememberTool,
    VisionTools,
    NotifyTool,
}

/// The settings that decide a turn's tools.
#[derive(Debug, Clone, Copy)]
pub struct RegistrySettings {
    /// The session allows shell commands.
    pub allow_shell: bool,
    /// A model client is configured (needed to launch workers).
    pub has_client: bool,
    pub apply_patch: bool,
    pub web_search: bool,
    pub shell_tool: bool,
    pub vision_model: bool,
    pub has_vision_config: bool,
    pub memory_enabled: bool,
}

/// The tools that launch or manage workers: registered only when a model
/// client is configured.
pub open spec fn needs_client(t: Seq<char>) -> bool {
    t == "omd_delegate"@ || t == "agent_eval"@ || t == "agent_close"@ || t == "agent_open"@
}

/// The tools of allowlist `ts` that a turn registers, in allowlist order:
/// all of them, except the worker tools when no model client is
/// configured.
pub open spec fn registered_phase_tools(ts: Seq<Seq<char>>, has_client: bool) -> Seq<Seq<char>>
    decreases ts.len(),
{
    if ts.len() == 0 {
        seq![]
    } else {
        let rest = registered_phase_tools(ts.drop_last(), has_client);
        if has_client || !needs_client(ts.last()) {
            rest.push(ts.last())
        } else {
            rest
        }
    }
}

/// The mode's standard tool groups.
pub open spec fn spec_base_plan(mode: AppMode, s: RegistrySettings) -> Seq<ToolGroup> {
    if is_omd_mode(mode) {
        seq![
            ToolGroup::OmdPhaseComplete,
            ToolGroup::OmdCheckpoint,
            ToolGroup::OmdStateRead,
            ToolGroup::AgentTools(s.allow_shell),
        ]
    } else if mode == AppMode::Plan {
        seq![
            ToolGroup::ReadOnlyFileTools,
            ToolGroup::SearchTools,
            ToolGroup::GitTools,
            ToolGroup::GitHistoryTools,
            ToolGroup::DiagnosticsTool,
            ToolGroup::SkillTools,
            ToolGroup::ValidationTools,
            ToolGroup::HandleTools,
            ToolGroup::RuntimeReadOnlyTaskTools,
            ToolGroup::TodoTool,
            ToolGroup::PlanTool,
        ]
    } else {
        seq![ToolGroup::AgentTools(s.allow_shell), ToolGroup::TodoTool, ToolGroup::PlanTool]
    }
}

/// The optional tool groups the settings enable (planning mode takes no
/// model-side tools, patching or shell).
pub open spec fn spec_optional_plan(mode: AppMode, s: RegistrySettings) -> Seq<ToolGroup> {
    let not_plan = mode != AppMode::Plan;
    seq![ToolGroup::ReviewTool, ToolGroup::UserInputTool, ToolGroup::ParallelTool, ToolGroup::RecallArchiveTool]
        + (if not_plan { seq![ToolGroup::RlmTool, ToolGroup::FimTool] } else { seq![] })
        + (if s.apply_patch && not_plan { seq![ToolGroup::PatchTools] } else { seq![] })
        + (if s.web_search { seq![ToolGroup::WebTools] } else { seq![] })
        + (if not_plan && s.shell_tool && s.allow_shell { seq![ToolGroup::ShellTools] } else { seq![] })
        + (if s.memory_enabled { seq![ToolGroup::RememberTool] } else { seq![] })
        + (if s.vision_model && s.has_vision_config { seq![ToolGroup::VisionTools] } else { seq![] })
        + seq![ToolGroup::NotifyTool]
}

/// The phase whose allowlist alone decides a turn's tools: the session's
/// phase, in an orchestrator mode, when that phase does not allow every
/// tool.
pub open spec fn restricted_phase(mode: AppMode, phase: Option<OmdPhase>) -> Option<OmdPhase> {
    match phase {
        Some(p) => if is_omd_mode(mode) && !spec_allows_all(p) {
            Some(p)
        } else {
            None
        },
        None => None,
    }
}

/// What a turn registers.
#[derive(Debug)]
pub enum ToolRegistryPlan {
    /// A restricted orchestrator phase: exactly these tools, by name (the
    /// model sees only what the phase allows).
    PhaseTools(Vec<&'static str>),
    /// Every other turn: these tool groups.
    Groups(Vec<ToolGroup>),
}

/// The tools a turn registers in `mode`, with `phase` the phase of the
/// orchestrator session (if any): a restricted orchestrator phase
/// registers the tools of its allowlist (`registered_phase_tools`); every
/// other turn, an orchestrator mode without a session among them, gets the
/// mode's standard tool groups and the optional groups its settings
/// enable.
pub open spec fn spec_registry_plan(mode: AppMode, phase: Option<OmdPhase>, s: RegistrySettings, r: ToolRegistryPlan) -> bool {
    match restricted_phase(mode, phase) {
        Some(p) => r matches ToolRegistryPlan::PhaseTools(v) && str_views(v@) == registered_phase_tools(
            spec_phase_tools(p),
            s.has_client,
        ),
        None => r matches ToolRegistryPlan::Groups(g) && g@ == spec_base_plan(mode, s) + spec_optional_plan(mode, s),
    }
}

fn is_worker_tool(t: &str) -> (r: bool)
    ensures
        r == needs_client(t@),
{
    crate::text::str_eq(t, "omd_delegate") || crate::text::str_eq(t, "agent_eval") || crate::text::str_eq(
        t,
        "agent_close",
    ) || crate::text::str_eq(t, "agent_open")
}

fn restricted_tools(policy: &PhaseToolPolicy, p: OmdPhase, s: RegistrySettings) -> (r: Vec<&'static str>)
    requires
        policy.spec_allowed() == spec_phase_tools(p),
    ensures
        str_views(r@) == registered_phase_tools(spec_phase_tools(p), s.has_client),
{
    let list = policy.allowed_list();
    let mut r: Vec<&'static str> = Vec::new();
    let mut k: usize = 0;
    while k < list.len()
        invariant
            k <= list.len(),
            str_views(list@) == spec_phase_tools(p),
            str_views(r@) == registered_phase_tools(str_views(list@).take(k as int), s.has_client),
        decreases list.len() - k,
    {
        let t = list[k];
        let ghost before = r@;
        assert(str_views(list@).take(k + 1).drop_last() =~= str_views(list@).take(k as int));
        if s.has_client || !is_worker_tool(t) {
            r.push(t);
            assert(str_views(r@) =~= str_views(before).push(t@));
        }
        k += 1;
    }
    assert(str_views(list@).take(list@.len() as int) =~= str_views(list@));
    r
}

fn push_base_plan(b: &mut Vec<ToolGroup>, mode: AppMode, s: RegistrySettings)
    ensures
        final(b)@ == old(b)@ + spec_base_plan(mode, s),
{
    match mode {
        AppMode::OmdTongtian | AppMode::OmdFuxi | AppMode::OmdPangu | AppMode::OmdHongjun => {
            b.push(ToolGroup::OmdPhaseComplete);
            b.push(ToolGroup::OmdCheckpoint);
            b.push(ToolGroup::OmdStateRead);
            b.push(ToolGroup::AgentTools(s.allow_shell));
        },
        AppMode::Plan => {
            b.push(ToolGroup::ReadOnlyFileTools);
            b.push(ToolGroup::SearchTools);
            b.push(ToolGroup::GitTools);
            b.push(ToolGroup::GitHistoryTools);
            b.push(ToolGroup::DiagnosticsTool);
            b.push(ToolGroup::SkillTools);
            b.push(ToolGroup::ValidationTools);
            b.push(ToolGroup::HandleTools);
            b.push(ToolGroup::RuntimeReadOnlyTaskTools);
            b.push(ToolGroup::TodoTool);
            b.push(ToolGroup::PlanTool);
        },
        _ => {
            b.push(ToolGroup::AgentTools(s.allow_shell));
            b.push(ToolGroup::TodoTool);
            b.push(ToolGroup::PlanTool);
        },
    }
    assert(b@ =~= old(b)@ + spec_base_plan(mode, s));
}

fn push_optional_plan(b: &mut Vec<ToolGroup>, mode: AppMode, s: RegistrySettings)
    ensures
        final(b)@ == old(b)@ + spec_optional_plan(mode, s),
{
    let not_plan = match mode {
        AppMode::Plan => false,
        _ => true,
    };
    b.push(ToolGroup::ReviewTool);
    b.push(ToolGroup::UserInputTool);
    b.push(ToolGroup::ParallelTool);
    b.push(ToolGroup::RecallArchiveTool);
    if not_plan {
        b.push(ToolGroup::RlmTool);
        b.push(ToolGroup::FimTool);
    }
    if s.apply_patch && not_plan {
        b.push(ToolGroup::PatchTools);
    }
    if s.web_search {
        b.push(ToolGroup::WebTools);
    }
    if not_plan && s.shell_tool && s.allow_shell {
        b.push(ToolGroup::ShellTools);
    }
    if s.memory_enabled {
        b.push(ToolGroup::RememberTool);
    }
    if s.vision_model && s.has_vision_config {
        b.push(ToolGroup::VisionTools);
    }
    b.push(ToolGroup::NotifyTool);
    assert(b@ =~= old(b)@ + spec_optional_plan(mode, s));
}

/// The tools a turn registers (`spec_registry_plan`).
pub fn plan_tool_registry(mode: AppMode, phase: Option<OmdPhase>, s: RegistrySettings) -> (r: ToolRegistryPlan)
    ensures
        spec_registry_plan(mode, phase, s, r),
{
    let omd = match mode {
        AppMode::OmdTongtian | AppMode::OmdFuxi | AppMode::OmdPangu | AppMode::OmdHongjun => true,
        _ => false,
    };
    if omd {
        match phase {
            Some(p) => {
                let policy = PhaseToolPolicy::for_phase(&p);
                if !policy.is_allow_all() {
                    return ToolRegistryPlan::PhaseTools(restricted_tools(&policy, p, s));
                }
            },
            None => {},
        }
    }
    let mut b: Vec<ToolGroup> = Vec::new();
    push_base_plan(&mut b, mode, s);
    push_optional_plan(&mut b, mode, s);
    assert(b@ =~= spec_base_plan(mode, s) + spec_optional_plan(mode, s));
    ToolRegistryPlan::Groups(b)
}

// ───────────────────────────── laws ─────────────────────────────

proof fn lemma_registered_tools(ts: Seq<Seq<char>>, c: bool, t: Seq<char>)
    ensures
        registered_phase_tools(ts, c).contains(t) <==> (ts.contains(t) && (c || !needs_client(t))),
    decreases ts.len(),
{
    if ts.len() > 0 {
        let rest = ts.drop_last();
        lemma_registered_tools(rest, c, t);
        assert(ts =~= rest.push(ts.last()));
        if ts.contains(t) && t != ts.last() {
            let i = choose|i: int| 0 <= i < ts.len() && ts[i] == t;
            assert(rest[i] == t);
        }
        if rest.contains(t) {
            let i = choose|i: int| 0 <= i < rest.len() && rest[i] == t;
            assert(ts[i] == t);
        }
        if c || !needs_client(ts.last()) {
            assert(registered_phase_tools(ts, c) == registered_phase_tools(rest, c).push(ts.last()));
            if registered_phase_tools(ts, c).contains(t) && t != ts.last() {
                let i = choose|i: int| 0 <= i < registered_phase_tools(ts, c).len() && registered_phase_tools(ts, c)[i] == t;
                assert(registered_phase_tools(rest, c)[i] == t);
            }
            if registered_phase_tools(rest, c).contains(t) {
                let i = choose|i: int| 0 <= i < registered_phase_tools(rest, c).len() && registered_phase_tools(rest, c)[i] == t;
                assert(registered_phase_tools(ts, c)[i] == t);
            }
            if t == ts.last() {
                assert(registered_phase_tools(ts, c)[registered_phase_tools(rest, c).len() as int] == t);
            }
        }
    }
}

/// In a restricted orchestrator phase the model sees only what the phase
/// allows: a tool is registered exactly when the phase's allowlist names
/// it, the worker tools only with a model client. In particular the shell
/// is registered exactly when `exec_shell` is allowed, file writing
/// exactly when `write_file` is, and delegation only when `omd_delegate`
/// is.
pub proof fn lemma_restricted_phase_tools(mode: AppMode, p: OmdPhase, s: RegistrySettings, r: ToolRegistryPlan, t: Seq<char>)
    requires
        is_omd_mode(mode),
        !spec_allows_all(p),
        spec_registry_plan(mode, Some(p), s, r),
    ensures
        r matches ToolRegistryPlan::PhaseTools(v) && (str_views(v@).contains(t) <==> (spec_tool_allowed(p, t) && (
        s.has_client || !needs_client(t)))),
{
    lemma_registered_tools(spec_phase_tools(p), s.has_client, t);
}

/// Planning mode never registers the shell, patching or the agent's
/// standard (writing) tools.
pub proof fn lemma_plan_mode_is_read_only(s: RegistrySettings, phase: Option<OmdPhase>, plan: ToolRegistryPlan)
    requires
        spec_registry_plan(AppMode::Plan, phase, s, plan),
    ensures
        plan matches ToolRegistryPlan::Groups(g) && !g@.contains(ToolGroup::ShellTools) && !g@.contains(
            ToolGroup::PatchTools,
        ) && !g@.contains(ToolGroup::AgentTools(true)) && !g@.contains(ToolGroup::AgentTools(false)),
{
    let r = spec_base_plan(AppMode::Plan, s) + spec_optional_plan(AppMode::Plan, s);
    assert forall|i: int| 0 <= i < r.len() implies r[i] != ToolGroup::ShellTools && r[i] != ToolGroup::PatchTools
        && r[i] != ToolGroup::AgentTools(true) && r[i] != ToolGroup::AgentTools(false) by {
        if i < spec_base_plan(AppMode::Plan, s).len() {
            assert(r[i] == spec_base_plan(AppMode::Plan, s)[i]);
        } else {
            assert(r[i] == spec_optional_plan(AppMode::Plan, s)[i - spec_base_plan(AppMode::Plan, s).len()]);
        }
    }
}

} // verus!
