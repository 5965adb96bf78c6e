use omd::commands::{
    omd_debug, omd_execute, omd_phase_complete, plan_tool_registry, sandbox_policy_for_mode, AppAction,
    AppMode, CommandResult, PlanLookup, RegistrySettings, SandboxPolicy, ToolGroup, ToolRegistryPlan,
};
use omd::debug::OmdDebugLogger;
use omd::state::OmdSessionState;
use omd::types::{FuxiPhase, OmdAgent, OmdPhase, PanguPhase, TongtianPhase};

fn settings() -> RegistrySettings {
    RegistrySettings {
        allow_shell: true,
        has_client: true,
        apply_patch: true,
        web_search: true,
        shell_tool: true,
        vision_model: false,
        has_vision_config: false,
        memory_enabled: false,
    }
}

#[test]
fn sandbox_policy_per_mode() {
    assert!(matches!(sandbox_policy_for_mode(AppMode::Plan, "/ws"), SandboxPolicy::ReadOnly));
    assert!(matches!(sandbox_policy_for_mode(AppMode::OmdFuxi, "/ws"), SandboxPolicy::ReadOnly));
    assert!(matches!(sandbox_policy_for_mode(AppMode::OmdHongjun, "/ws"), SandboxPolicy::ReadOnly));
    assert!(matches!(sandbox_policy_for_mode(AppMode::Yolo, "/ws"), SandboxPolicy::DangerFullAccess));
    assert!(matches!(sandbox_policy_for_mode(AppMode::OmdTongtian, "/ws"), SandboxPolicy::DangerFullAccess));
    assert!(matches!(sandbox_policy_for_mode(AppMode::OmdPangu, "/ws"), SandboxPolicy::DangerFullAccess));
    match sandbox_policy_for_mode(AppMode::Agent, "/ws") {
        SandboxPolicy::WorkspaceWrite { writable_roots, network_access, exclude_tmpdir, exclude_slash_tmp } => {
            assert_eq!(writable_roots, vec!["/ws".to_string()]);
            assert!(network_access);
            assert!(!exclude_tmpdir);
            assert!(!exclude_slash_tmp);
        }
        other => panic!("unexpected {:?}", other),
    }
}

#[test]
fn phase_complete_command() {
    match omd_phase_complete(AppMode::Agent, Some("Verify")) {
        CommandResult::Error(m) => assert_eq!(m, "Not in an OMD mode. Switch to an OMD mode first."),
        other => panic!("unexpected {:?}", other),
    }
    match omd_phase_complete(AppMode::OmdPangu, Some("  Verify \n")) {
        CommandResult::Action(AppAction::OmdPhaseComplete { target_phase }) => assert_eq!(target_phase, "Verify"),
        other => panic!("unexpected {:?}", other),
    }
    match omd_phase_complete(AppMode::OmdFuxi, None) {
        CommandResult::Error(m) => {
            assert_eq!(m, "Usage: /omd-phase-complete <target_phase>. This is an escape hatch for stalled phases.")
        }
        other => panic!("unexpected {:?}", other),
    }
}

#[test]
fn execute_command_picks_plan() {
    match omd_execute(Some("plans/a.md"), PlanLookup::NoDirectory) {
        CommandResult::SwitchMode { mode, message } => {
            assert_eq!(mode, AppMode::OmdPangu);
            assert_eq!(message, "Switched to Pangu mode. Plan: plans/a.md");
        }
        other => panic!("unexpected {:?}", other),
    }
    match omd_execute(None, PlanLookup::Newest("/ws/.omd/plans/b.md".to_string())) {
        CommandResult::SwitchMode { message, .. } => assert_eq!(message, "Switched to Pangu mode. Plan: /ws/.omd/plans/b.md"),
        other => panic!("unexpected {:?}", other),
    }
    assert!(matches!(omd_execute(None, PlanLookup::Empty), CommandResult::Error(_)));
    match omd_execute(None, PlanLookup::NoDirectory) {
        CommandResult::Error(m) => {
            assert_eq!(m, "No .omd/plans/ directory. Create a plan with Fuxi first, or specify: /omd-execute <path>")
        }
        other => panic!("unexpected {:?}", other),
    }
}

#[test]
fn debug_command_without_session() {
    let logger = OmdDebugLogger::new("/ws");
    assert_eq!(
        omd_debug(&logger, None, &[]),
        "=== OMD Debug Status ===\nNo active OMD session and no debug events found.\nStart an OMD mode to begin logging."
    );
}

#[test]
fn debug_command_lists_phase_tools() {
    let logger = OmdDebugLogger::new("/ws");
    let mut state = OmdSessionState::new_at(OmdAgent::Fuxi, "sid".to_string(), "t0".to_string());
    state.phase = "Plan".to_string();
    let out = omd_debug(&logger, Some(&state), &[]);
    assert!(out.starts_with("=== OMD Debug Status ===\nAgent: Fuxi\nPhase: Plan\nSession: sid\nStarted: t0\n\nAvailable tools (7):\n  read_file, grep_files, file_search, list_dir, write_file,\n  omd_phase_complete, omd_state_read\n"), "{}", out);
}

#[test]
fn registry_for_restricted_phases() {
    match plan_tool_registry(AppMode::OmdTongtian, Some(OmdPhase::Tongtian(TongtianPhase::Explore)), settings()) {
        ToolRegistryPlan::PhaseTools(v) => assert_eq!(
            v,
            vec![
                "read_file", "grep_files", "file_search", "list_dir", "git_status", "git_diff", "git_log",
                "git_show", "git_blame", "diagnostics", "exec_shell", "exec_shell_wait", "agent_open",
                "omd_delegate", "omd_phase_complete", "omd_checkpoint", "omd_state_read",
            ]
        ),
        other => panic!("unexpected {:?}", other),
    }
    match plan_tool_registry(AppMode::OmdFuxi, Some(OmdPhase::Fuxi(FuxiPhase::Interview)), settings()) {
        ToolRegistryPlan::PhaseTools(v) => assert_eq!(
            v,
            vec!["read_file", "grep_files", "file_search", "list_dir", "omd_phase_complete", "omd_state_read"]
        ),
        other => panic!("unexpected {:?}", other),
    }
    match plan_tool_registry(AppMode::OmdFuxi, Some(OmdPhase::Fuxi(FuxiPhase::Plan)), settings()) {
        ToolRegistryPlan::PhaseTools(v) => {
            assert!(v.contains(&"write_file"));
            assert!(!v.contains(&"exec_shell"));
            assert!(!v.contains(&"omd_checkpoint"));
        }
        other => panic!("unexpected {:?}", other),
    }
    let mut no_client = settings();
    no_client.has_client = false;
    match plan_tool_registry(AppMode::OmdPangu, Some(OmdPhase::Pangu(PanguPhase::Delegate)), no_client) {
        ToolRegistryPlan::PhaseTools(v) => assert_eq!(
            v,
            vec!["read_file", "grep_files", "file_search", "list_dir", "omd_phase_complete", "omd_checkpoint", "omd_state_read"]
        ),
        other => panic!("unexpected {:?}", other),
    }
}

fn groups(r: ToolRegistryPlan) -> Vec<ToolGroup> {
    match r {
        ToolRegistryPlan::Groups(g) => g,
        other => panic!("unexpected {:?}", other),
    }
}

#[test]
fn registry_for_full_access_and_plain_modes() {
    let r = groups(plan_tool_registry(AppMode::OmdTongtian, Some(OmdPhase::Tongtian(TongtianPhase::Execute)), settings()));
    assert_eq!(&r[..4], &[ToolGroup::OmdPhaseComplete, ToolGroup::OmdCheckpoint, ToolGroup::OmdStateRead, ToolGroup::AgentTools(true)]);
    assert!(r.contains(&ToolGroup::PatchTools));
    assert!(r.contains(&ToolGroup::ShellTools));
    assert_eq!(r.last(), Some(&ToolGroup::NotifyTool));
    let r = groups(plan_tool_registry(AppMode::Plan, None, settings()));
    assert!(!r.contains(&ToolGroup::ShellTools));
    assert!(!r.contains(&ToolGroup::PatchTools));
    assert!(!r.contains(&ToolGroup::RlmTool));
    assert!(r.contains(&ToolGroup::WebTools));
    let r = groups(plan_tool_registry(AppMode::Agent, None, settings()));
    assert_eq!(&r[..3], &[ToolGroup::AgentTools(true), ToolGroup::TodoTool, ToolGroup::PlanTool]);
    // An orchestrator mode without a session falls back to the mode's standard tools.
    let r = groups(plan_tool_registry(AppMode::OmdFuxi, None, settings()));
    assert_eq!(&r[..4], &[ToolGroup::OmdPhaseComplete, ToolGroup::OmdCheckpoint, ToolGroup::OmdStateRead, ToolGroup::AgentTools(true)]);
}
