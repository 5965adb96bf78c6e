use omd::state::{
    judge_lock, lock_owner,
    rebuild_from_events, rebuild_full_state_from_events, replay_session_events, OmdSessionState,
    OmdStateStore, SessionEvent,
};
use omd::tasks::{Task, TaskStatus};
use omd::types::OmdAgent;

fn start(agent: &str, phase: &str, ts: &str) -> SessionEvent {
    SessionEvent::SessionStart {
        agent: Some(agent.to_string()),
        phase: Some(phase.to_string()),
        ts: Some(ts.to_string()),
    }
}

fn moved_to(phase: &str) -> SessionEvent {
    SessionEvent::PhaseTransition { to: Some(phase.to_string()) }
}

#[test]
fn rebuild_from_events_restores_phase() {
    let events = vec![SessionEvent::Other, moved_to("Execute"), SessionEvent::Other];
    let rebuilt = rebuild_from_events(&events);
    assert!(rebuilt.is_some());
    assert_eq!(rebuilt.unwrap(), "Execute");
}

#[test]
fn rebuild_full_state_restores_agent_and_phase() {
    let sid = "full-replay-1";
    let events = vec![start("Tongtian", "Explore", "2024-01-01T00:00:00Z"), moved_to("Execute")];

    let state = rebuild_full_state_from_events(events, sid, "later".to_string()).expect("should rebuild");
    assert_eq!(state.agent, "Tongtian");
    assert_eq!(state.phase, "Execute");
    assert_eq!(state.session_id, sid);
    assert_eq!(state.started_at, "2024-01-01T00:00:00Z");
    assert!(state.task_graph.is_none()); // no task_update events
}

#[test]
fn rebuild_full_state_replays_task_graph() {
    let sid = "full-replay-tasks";
    let task = Task::new("t1", "do the thing");
    let events = vec![
        start("Pangu", "Decompose", "2024-01-01T00:00:00Z"),
        // First non-Pending status update carries task_definition
        SessionEvent::TaskUpdate {
            task_definition: Some(task),
            task_id: Some("t1".to_string()),
            status: Some("Active".to_string()),
        },
        // Completion event
        SessionEvent::TaskUpdate { task_definition: None, task_id: Some("t1".to_string()), status: Some("Done".to_string()) },
    ];

    let state = rebuild_full_state_from_events(events, sid, "later".to_string()).expect("should rebuild");
    assert_eq!(state.phase, "Decompose");
    let graph = state.task_graph.expect("task_graph should be reconstructed");
    let t = graph.get("t1").expect("task t1 should exist");
    assert_eq!(t.description, "do the thing");
    assert_eq!(t.status, TaskStatus::Done);
}

#[test]
fn rebuild_full_state_returns_none_when_no_events_file() {
    let result = rebuild_full_state_from_events(vec![], "nonexistent-session", "later".to_string());
    assert!(result.is_none());
}

#[test]
fn rebuild_full_state_skips_corrupt_lines() {
    // A line that is not JSON is left out before replay.
    let events = vec![start("Fuxi", "Interview", "2024-01-01T00:00:00Z"), moved_to("Architect")];
    let state = rebuild_full_state_from_events(events, "full-replay-corrupt", "later".to_string())
        .expect("should survive corrupt line");
    assert_eq!(state.phase, "Architect");
}

#[test]
fn replay_ignores_refused_changes_and_repeated_definitions() {
    let events = vec![
        SessionEvent::TaskUpdate {
            task_definition: Some(Task::new("a", "first")),
            task_id: Some("a".to_string()),
            status: Some("Failed".to_string()), // Pending → Failed is refused
        },
        SessionEvent::TaskUpdate {
            task_definition: Some(Task::new("a", "second definition")),
            task_id: Some("a".to_string()),
            status: Some("Bogus".to_string()),
        },
    ];
    let out = replay_session_events(events);
    let g = out.task_graph.unwrap();
    assert_eq!(g.tasks.len(), 1);
    assert_eq!(g.tasks[0].description, "first");
    assert_eq!(g.tasks[0].status, TaskStatus::Pending);
    assert!(out.agent.is_none());
}

#[test]
fn session_state_new_and_layout() {
    let s = OmdSessionState::new_at(OmdAgent::Pangu, "sid".to_string(), "2024-05-01T10:00:00Z".to_string());
    assert_eq!(s.schema_version, 1);
    assert_eq!(s.agent, "Pangu");
    assert_eq!(s.phase, "LoadPlan");
    assert_eq!(s.started_at, "2024-05-01T10:00:00Z");
    assert_eq!(s.updated_at, "2024-05-01T10:00:00Z");
    assert!(s.task_graph.is_none());
    let mut s2 = s.clone();
    s2.update_phase_at("Decompose", "2024-05-01T11:00:00Z".to_string());
    assert_eq!(s2.phase, "Decompose");
    assert_eq!(s2.updated_at, "2024-05-01T11:00:00Z");
    assert_eq!(s2.started_at, "2024-05-01T10:00:00Z");

    let store = OmdStateStore::new("/ws");
    assert_eq!(store.workspace(), "/ws");
    assert_eq!(store.base_dir(), "/ws/.omd/sessions");
    assert_eq!(store.current_state_path(), "/ws/.omd/sessions/current.json");
    assert_eq!(store.events_path("abc"), "/ws/.omd/sessions/abc/events.jsonl");
    assert_eq!(store.lock_path(), "/ws/.omd/sessions/.lock");
}

#[test]
fn lock_owner_and_staleness() {
    assert_eq!(lock_owner("1234\n"), Some(1234));
    assert_eq!(lock_owner("  +42 "), Some(42));
    assert_eq!(lock_owner("x12"), None);
    assert_eq!(lock_owner(""), None);
    assert_eq!(lock_owner("4294967296"), None);
    assert_eq!(judge_lock(None, true), Ok(()));
    assert_eq!(judge_lock(Some(0), true), Ok(()));
    assert_eq!(judge_lock(Some(7), false), Ok(()));
    assert_eq!(judge_lock(Some(7), true), Err("Lock held by PID 7 (still alive)".to_string()));
}
