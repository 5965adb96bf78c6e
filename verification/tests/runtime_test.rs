use omd::runtime::{OmdRuntimeState, PhaseReply, RuntimeEvent, StoreEffect, TaskUpdateReply};
use omd::state::{rebuild_from_events, rebuild_full_state_from_events, SessionEvent};
use omd::tasks::{Task, TaskGraph, TaskStatus};
use omd::types::OmdAgent;

fn make_runtime(agent: OmdAgent) -> OmdRuntimeState {
    OmdRuntimeState::new(agent, "/tmp/omd-workspace")
}

fn is_ok(r: &PhaseReply) -> bool {
    matches!(r, PhaseReply::Moved { .. })
}

fn error_of(r: &PhaseReply) -> String {
    match r {
        PhaseReply::Refused { error, .. } => error.clone(),
        _ => String::new(),
    }
}

#[test]
fn user_phase_complete_transitions_on_valid_target() {
    let mut rt = make_runtime(OmdAgent::Tongtian);
    assert_eq!(rt.fsm.current_phase_name(), "Explore");

    let result = rt.handle_user_phase_complete("Execute");
    match result {
        PhaseReply::Moved { phase, user_initiated, .. } => {
            assert_eq!(phase, "Execute");
            assert!(user_initiated);
        }
        _ => panic!("expected a move"),
    }
    assert_eq!(rt.fsm.current_phase_name(), "Execute");
}

#[test]
fn user_phase_complete_rejects_invalid_target() {
    let mut rt = make_runtime(OmdAgent::Tongtian);
    assert_eq!(rt.fsm.current_phase_name(), "Explore");

    // "Done" is not a valid successor of "Explore" for Tongtian
    let result = rt.handle_user_phase_complete("Done");
    assert!(!is_ok(&result));
    assert!(!error_of(&result).is_empty());
    // Phase should remain unchanged
    assert_eq!(rt.fsm.current_phase_name(), "Explore");
}

#[test]
fn user_phase_complete_rejects_nonexistent_phase() {
    let mut rt = make_runtime(OmdAgent::Fuxi);
    assert_eq!(rt.fsm.current_phase_name(), "Interview");

    let result = rt.handle_user_phase_complete("NonexistentPhase");
    assert!(!is_ok(&result));
    assert!(error_of(&result).contains("not a valid phase"));
    assert_eq!(rt.fsm.current_phase_name(), "Interview");
}

#[test]
fn user_phase_complete_clears_audit_log() {
    let mut rt = make_runtime(OmdAgent::Tongtian);
    rt.push_audit_entry("cargo test".to_string(), 0);
    assert_eq!(rt.audit_log.len(), 1);

    let result = rt.handle_user_phase_complete("Execute");
    assert!(is_ok(&result));
    assert!(rt.audit_log.is_empty());
}

fn one_task_graph(id: &str, status: TaskStatus) -> Option<TaskGraph> {
    let mut task = Task::new(id, "do work");
    task.status = status;
    let mut g = TaskGraph::new();
    g.add_task(task);
    Some(g)
}

#[test]
fn delegate_to_verify_blocked_while_active_task_exists() {
    let mut rt = make_runtime(OmdAgent::Pangu);
    rt.handle_user_phase_complete("Decompose");
    rt.handle_user_phase_complete("Delegate");
    assert_eq!(rt.fsm.current_phase_name(), "Delegate");

    rt.task_graph = one_task_graph("t1", TaskStatus::Active);

    let result = rt.handle_user_phase_complete("Verify");
    assert!(!is_ok(&result));
    let err = error_of(&result);
    assert!(err.contains("Cannot enter Verify"), "unexpected error: {}", err);
    assert!(err.contains("1 task(s) still Active"), "unexpected error: {}", err);
    assert_eq!(rt.fsm.current_phase_name(), "Delegate");
}

#[test]
fn delegate_to_verify_allowed_when_no_active_tasks() {
    let mut rt = make_runtime(OmdAgent::Pangu);
    rt.handle_user_phase_complete("Decompose");
    rt.handle_user_phase_complete("Delegate");
    assert_eq!(rt.fsm.current_phase_name(), "Delegate");

    rt.task_graph = one_task_graph("t1", TaskStatus::Pending);

    let result = rt.handle_user_phase_complete("Verify");
    assert!(is_ok(&result));
    assert_eq!(rt.fsm.current_phase_name(), "Verify");
}

#[test]
fn handle_phase_complete_delegate_to_verify_blocked_while_active_task_exists() {
    let mut rt = make_runtime(OmdAgent::Pangu);
    rt.handle_user_phase_complete("Decompose");
    rt.handle_user_phase_complete("Delegate");
    assert_eq!(rt.fsm.current_phase_name(), "Delegate");

    rt.task_graph = one_task_graph("t2", TaskStatus::Active);

    let result = rt.handle_phase_complete("Verify", "all done", &[]);
    assert!(!is_ok(&result));
    let err = error_of(&result);
    assert!(err.contains("Cannot enter Verify"), "unexpected error: {}", err);
    assert!(err.contains("1 task(s) still Active"), "unexpected error: {}", err);
    assert_eq!(rt.fsm.current_phase_name(), "Delegate");
}

#[test]
fn user_phase_complete_fuxi_handoff_on_done() {
    let mut rt = make_runtime(OmdAgent::Fuxi);
    rt.handle_user_phase_complete("Explore");
    rt.handle_user_phase_complete("Architect");
    rt.handle_user_phase_complete("Plan");
    assert_eq!(rt.fsm.current_phase_name(), "Plan");

    rt.effects.clear();
    let result = rt.handle_user_phase_complete("Done");
    match result {
        PhaseReply::Moved { phase, .. } => assert_eq!(phase, "Done"),
        _ => panic!("expected a move"),
    }
    // transition event, snapshot, handoff event
    assert_eq!(rt.effects.len(), 3);
    match &rt.effects[2] {
        StoreEffect::AppendEvent(RuntimeEvent::FuxiHandoff { plan_path, message }) => {
            assert_eq!(plan_path, ".omd/plans/latest.md");
            assert_eq!(message, "Plan ready. Use /omd-execute to start Pangu.");
        }
        other => panic!("unexpected effect {:?}", other),
    }
}

fn start(agent: &str, phase: &str, ts: &str) -> SessionEvent {
    SessionEvent::SessionStart {
        agent: Some(agent.to_string()),
        phase: Some(phase.to_string()),
        ts: Some(ts.to_string()),
    }
}

fn moved_to(phase: &str) -> SessionEvent {
    SessionEvent::PhaseTransition { to: Some(phase.to_string()) }
}

#[test]
fn detect_unfinished_session_falls_back_to_events_when_current_json_missing() {
    let events = vec![start("Tongtian", "Explore", "2024-01-01T00:00:00Z"), moved_to("Execute")];
    let detected = rebuild_full_state_from_events(events, "crash-session", "now".to_string());
    assert!(detected.is_some(), "should detect session from events");
    let state = detected.unwrap();
    assert!(state.is_unfinished());
    assert_eq!(state.phase, "Execute");
    assert_eq!(state.agent, "Tongtian");
}

#[test]
fn detect_unfinished_session_returns_none_when_phase_is_done() {
    let events = vec![start("Tongtian", "Explore", "2024-01-01T00:00:00Z"), moved_to("Done")];
    let state = rebuild_full_state_from_events(events, "done-session", "now".to_string()).unwrap();
    assert!(!state.is_unfinished(), "Done sessions should not be detected as unfinished");
}

#[test]
fn task_update_includes_task_definition_on_first_nontrivial_status() {
    let mut rt = make_runtime(OmdAgent::Pangu);
    rt.init_task_graph(vec![Task::new("impl-1", "implement feature")]).unwrap();
    rt.effects.clear();

    let result = rt.handle_task_update("impl-1", TaskStatus::Active, vec![], None);
    assert!(matches!(result, TaskUpdateReply::Updated { .. }));

    match &rt.effects[0] {
        StoreEffect::AppendEvent(RuntimeEvent::TaskUpdate { task_definition, status, .. }) => {
            assert_eq!(status, "Active");
            let def = task_definition.as_ref().expect("task_update event should include task_definition");
            assert_eq!(def.id, "impl-1");
        }
        other => panic!("unexpected effect {:?}", other),
    }
}

#[test]
fn resume_restores_task_graph_from_events_when_current_json_missing_graph() {
    let mut rt = OmdRuntimeState::new(OmdAgent::Pangu, "/tmp/omd-workspace");
    rt.init_task_graph(vec![Task::new("t-resume", "resumable task")]).unwrap();
    rt.handle_task_update("t-resume", TaskStatus::Active, vec![], None);

    // The event log as it was written.
    let mut events = vec![start("Pangu", "LoadPlan", "2024-01-01T00:00:00Z")];
    for e in rt.effects.drain(..) {
        if let StoreEffect::AppendEvent(RuntimeEvent::TaskUpdate { task_id, status, task_definition, .. }) = e {
            events.push(SessionEvent::TaskUpdate {
                task_definition,
                task_id: Some(task_id),
                status: Some(status),
            });
        }
    }
    let last = rebuild_from_events(&events);
    // The snapshot lost its task graph.
    let mut snapshot = rt.session_state.clone();
    snapshot.task_graph = None;
    let rebuilt = rebuild_full_state_from_events(events, &snapshot.session_id, "now".to_string());

    let resumed = OmdRuntimeState::resume("/tmp/omd-workspace", snapshot, rebuilt, last).unwrap();
    let graph = resumed.task_graph.as_ref().expect("resume should restore task_graph from events");
    assert!(graph.get("t-resume").is_some(), "task should be in restored graph");
    assert_eq!(graph.get("t-resume").unwrap().status, TaskStatus::Active);
    assert!(matches!(resumed.effects.as_slice(), [StoreEffect::WriteState]));
}
