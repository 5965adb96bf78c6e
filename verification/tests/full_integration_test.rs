use omd::runtime::{PhaseReply, RuntimeEvent, StoreEffect};
use omd::{OmdAgent, OmdRuntimeState, PhaseToolPolicy};

const WS: &str = "/tmp/omd-workspace";

fn moved_phase(r: &PhaseReply) -> Option<String> {
    match r {
        PhaseReply::Moved { phase, .. } => Some(phase.clone()),
        _ => None,
    }
}

#[test]
fn core_hypothesis_tool_blocking_per_phase() {
    let mut state = OmdRuntimeState::new(OmdAgent::Tongtian, WS);

    // EXPLORE: edit_file blocked
    let policy = PhaseToolPolicy::for_phase(state.fsm.phase());
    assert!(!policy.is_allowed("edit_file"), "edit_file must be blocked in Explore");
    assert!(!policy.is_allowed("write_file"), "write_file must be blocked in Explore");
    assert!(policy.is_allowed("read_file"), "read_file must be allowed in Explore");
    assert!(policy.is_allowed("grep_files"), "grep_files must be allowed in Explore");
    assert!(policy.is_allowed("omd_phase_complete"), "omd_phase_complete must always be allowed");

    // Transition to EXECUTE (the evidence item names no `path`)
    let result = state.handle_phase_complete("Execute", "done exploring", &[None]);
    assert_eq!(moved_phase(&result), Some("Execute".to_string()));

    // EXECUTE: edit_file allowed
    let policy = PhaseToolPolicy::for_phase(state.fsm.phase());
    assert!(policy.is_allowed("edit_file"), "edit_file must be allowed in Execute");
    assert!(policy.is_allowed("write_file"), "write_file must be allowed in Execute");
    assert!(policy.is_allowed("exec_shell"), "exec_shell must be allowed in Execute");
    assert!(policy.is_allowed("agent_open"), "agent_open must be allowed in Execute");
    assert!(policy.is_allow_all(), "Execute phase must allow all tools");

    // Transition to VERIFY
    let result = state.handle_phase_complete("Verify", "implemented", &[None]);
    assert_eq!(moved_phase(&result), Some("Verify".to_string()));

    // VERIFY: edit_file blocked again, but exec_shell allowed
    let policy = PhaseToolPolicy::for_phase(state.fsm.phase());
    assert!(!policy.is_allowed("edit_file"), "edit_file must be blocked in Verify");
    assert!(!policy.is_allowed("write_file"), "write_file must be blocked in Verify");
    assert!(policy.is_allowed("exec_shell"), "exec_shell must be allowed in Verify for running tests");
    assert!(policy.is_allowed("read_file"), "read_file must be allowed in Verify");
}

#[test]
fn verify_to_execute_loopback() {
    let mut state = OmdRuntimeState::new(OmdAgent::Tongtian, WS);

    // Progress to Verify
    state.handle_phase_complete("Execute", "explore done", &[]);
    state.handle_phase_complete("Verify", "impl done", &[]);

    // Loopback to Execute (test failure scenario)
    let result = state.handle_phase_complete("Execute", "tests failed, need to fix", &[None]);
    assert_eq!(moved_phase(&result), Some("Execute".to_string()));

    // Can write again
    let policy = PhaseToolPolicy::for_phase(state.fsm.phase());
    assert!(policy.is_allowed("edit_file"));
}

#[test]
fn full_integration_test_invalid_transition_returns_error() {
    let mut state = OmdRuntimeState::new(OmdAgent::Tongtian, WS);

    // Try to skip from Explore to Done
    let result = state.handle_phase_complete("Done", "skip everything", &[]);
    match result {
        PhaseReply::Refused { error, valid_next_phases, .. } => {
            assert!(error.contains("Cannot transition"));
            assert!(valid_next_phases.unwrap().contains(&"Execute"));
        }
        _ => panic!("expected a refusal"),
    }
}

#[test]
fn state_persists_to_disk() {
    let state = OmdRuntimeState::new(OmdAgent::Tongtian, WS);

    // The snapshot and the session start are queued for the disk.
    assert!(matches!(state.effects[0], StoreEffect::WriteState));
    match &state.effects[1] {
        StoreEffect::AppendEvent(RuntimeEvent::SessionStart { agent, phase }) => {
            assert_eq!(agent, "Tongtian");
            assert_eq!(phase, "Explore");
        }
        other => panic!("unexpected effect {:?}", other),
    }
    assert_eq!(state.session_state.agent, "Tongtian");
    assert_eq!(state.session_state.phase, "Explore");
}

#[test]
fn phase_transition_appends_event() {
    let mut state = OmdRuntimeState::new(OmdAgent::Tongtian, WS);

    state.handle_phase_complete("Execute", "done", &[]);

    // session_start + snapshot, then phase_transition + snapshot
    assert!(state.effects.len() >= 4);
    match &state.effects[2] {
        StoreEffect::AppendEvent(RuntimeEvent::PhaseTransition { from, to, reason, user_initiated }) => {
            assert_eq!(from, "Explore");
            assert_eq!(to, "Execute");
            assert_eq!(reason, "done");
            assert!(!user_initiated);
        }
        other => panic!("unexpected effect {:?}", other),
    }
    assert!(matches!(state.effects[3], StoreEffect::WriteState));
}

#[test]
fn checkpoint_saves_without_transition() {
    let mut state = OmdRuntimeState::new(OmdAgent::Tongtian, WS);

    state.handle_checkpoint("Found 3 relevant files");

    match state.effects.last().unwrap() {
        StoreEffect::AppendEvent(RuntimeEvent::Checkpoint { phase, summary }) => {
            assert_eq!(phase, "Explore");
            assert_eq!(summary, "Found 3 relevant files");
        }
        other => panic!("unexpected effect {:?}", other),
    }
    assert_eq!(state.fsm.current_phase_name(), "Explore");
}

#[test]
fn state_read_returns_correct_info() {
    let state = OmdRuntimeState::new(OmdAgent::Tongtian, WS);

    let info = state.handle_state_read();
    assert_eq!(info.agent, "Tongtian");
    assert_eq!(info.phase, "Explore");
    assert!(info.valid_next_phases.contains(&"Execute"));
    assert!(info.session_id.len() > 0);
    assert!(info.task_progress.is_none());
}
