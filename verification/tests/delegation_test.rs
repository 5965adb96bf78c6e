use omd::delegation::{plan_delegation_at, DelegationError};
use omd::types::OmdAgent;
use omd::workers::WorkerRegistry;
use omd::OmdRuntimeState;

#[test]
fn delegation_builds_prompt_and_session() {
    let plan = plan_delegation_at(
        OmdAgent::Pangu,
        "Delegate",
        "shennong",
        "Write tests for the parser",
        &["src/parser.rs".to_string(), "tests/parser.rs".to_string()],
        &["tests/**".to_string()],
        1700000000,
        0,
    )
    .unwrap();
    let prefix = WorkerRegistry::new().get("shennong").unwrap().system_prompt_prefix;
    assert_eq!(
        plan.prompt,
        format!(
            "{}\n\n## Task\n\nWrite tests for the parser\n\nRelevant files:\n- src/parser.rs\n- tests/parser.rs\n\nAllowed write scope:\n- tests/**",
            prefix
        )
    );
    assert_eq!(plan.session_name, "omd-shennong-1700000000");
    assert_eq!(plan.write_scope, Some(vec!["tests/**".to_string()]));
    assert!(plan.shell_read_only);
    assert_eq!(plan.reasoning_effort, "high");
    assert_eq!(plan.max_spawn_depth, 1);
    assert_eq!(plan.display_name, "神农 Shennong");
    assert!(plan.allowed_tools.contains(&"write_file"));
    assert_eq!(
        plan.reply,
        "Spawned worker 神农 Shennong (session: omd-shennong-1700000000). Use `agent_eval` with session name 'omd-shennong-1700000000' to wait for results."
    );
}

#[test]
fn delegation_without_scope_or_context() {
    let plan = plan_delegation_at(OmdAgent::Pangu, "Delegate", "kunpeng", "Map the module", &[], &[], -5, 2).unwrap();
    assert!(plan.prompt.ends_with("\n\n## Task\n\nMap the module"));
    assert_eq!(plan.write_scope, None);
    assert!(!plan.shell_read_only);
    assert_eq!(plan.session_name, "omd-kunpeng--5");
    assert_eq!(plan.max_spawn_depth, 3);
}

#[test]
fn delegation_refusals() {
    match plan_delegation_at(OmdAgent::Pangu, "Delegate", "ghost", "t", &[], &[], 0, 0) {
        Err(DelegationError::InvalidInput(m)) => assert_eq!(
            m,
            "Unknown worker 'ghost'. Available: [\"tongtian-junior\", \"kunpeng\", \"nuwa\", \"shennong\", \"yangmei\", \"cangjie\", \"zhurong\", \"tingfeng\"]"
        ),
        other => panic!("unexpected {:?}", other.err()),
    }
    match plan_delegation_at(OmdAgent::Pangu, "Verify", "shennong", "t", &[], &[], 0, 0) {
        Err(DelegationError::PermissionDenied(m)) => {
            assert_eq!(m, "In Verify phase, only 'nuwa' can be delegated to (got 'shennong')")
        }
        other => panic!("unexpected {:?}", other.err()),
    }
    assert!(plan_delegation_at(OmdAgent::Pangu, "Verify", "nuwa", "t", &[], &[], 0, 0).is_ok());
    match plan_delegation_at(OmdAgent::Fuxi, "Explore", "tongtian-junior", "t", &[], &[], 0, 0) {
        Err(DelegationError::PermissionDenied(m)) => assert_eq!(
            m,
            "Fuxi can only delegate to read-only workers ([\"kunpeng\", \"yangmei\", \"nuwa\", \"tingfeng\"]). Got 'tongtian-junior'. Fuxi gathers information — implementation is Pangu's job."
        ),
        other => panic!("unexpected {:?}", other.err()),
    }
    assert!(plan_delegation_at(OmdAgent::Fuxi, "Architect", "tingfeng", "t", &[], &[], 0, 0).is_ok());
    match plan_delegation_at(OmdAgent::Tongtian, "Explore", "cangjie", "t", &[], &[], 0, 0) {
        Err(DelegationError::PermissionDenied(m)) => assert_eq!(
            m,
            "In Explore phase, only read-only workers ([\"kunpeng\", \"yangmei\", \"nuwa\", \"tingfeng\"]) can be delegated to. Got 'cangjie'."
        ),
        other => panic!("unexpected {:?}", other.err()),
    }
    assert!(plan_delegation_at(OmdAgent::Tongtian, "Execute", "cangjie", "t", &[], &[], 0, 0).is_ok());
}

#[test]
fn delegation_from_runtime_uses_current_phase() {
    let mut rt = OmdRuntimeState::new(OmdAgent::Pangu, "/ws");
    rt.handle_phase_complete("Decompose", "r", &[]);
    rt.handle_phase_complete("Delegate", "r", &[]);
    let plan = rt.plan_delegation("zhurong", "Find the crash", &[], &[], 0).unwrap();
    assert!(plan.session_name.starts_with("omd-zhurong-"));
    rt.handle_phase_complete("Verify", "r", &[]);
    assert!(matches!(rt.plan_delegation("zhurong", "x", &[], &[], 0), Err(DelegationError::PermissionDenied(_))));
    let before = rt.effects.len();
    rt.record_delegation("nuwa", "run tests", Some("T1".to_string()), None, &[], &["a.rs".to_string()], "omd-nuwa-1");
    assert_eq!(rt.effects.len(), before + 1);
}

#[test]
fn every_worker_is_found_by_its_id() {
    let registry = WorkerRegistry::new();
    assert_eq!(registry.all().len(), 8);
    for w in registry.all() {
        assert_eq!(registry.get(w.id).unwrap().id, w.id);
        assert!(!w.can_delegate);
    }
    assert!(!registry.get("tingfeng").unwrap().can_write_code);
}
