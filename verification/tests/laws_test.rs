use omd::delegation::{plan_delegation_at, DelegationError};
use omd::evidence::{parse_git_diff_stat, ClaimObservations, EvidenceClaim, EvidenceItem};
use omd::fsm::OmdFsm;
use omd::runtime::{OmdRuntimeState, PhaseReply};
use omd::shell_parser::{
    has_command_substitution, has_unquoted, split_commands, tokenize, Operator,
};
use omd::shell_policy::{validate_command, ShellPolicy};
use omd::commands::{plan_tool_registry, AppMode, RegistrySettings, ToolRegistryPlan};
use omd::state::{rebuild_from_events, rebuild_full_state_from_events, SessionEvent};
use omd::tasks::{Task, TaskGraph, TaskStatus};
use omd::transition_guards::{check_evidence_requirements, required_evidence_for};
use omd::types::{OmdAgent, OmdPhase};
use omd::workers::WorkerRegistry;
use omd::PhaseToolPolicy;

fn agents() -> Vec<(OmdAgent, &'static str, Vec<&'static str>)> {
    vec![
        (OmdAgent::Tongtian, "Tongtian", vec!["Explore", "Execute", "Verify", "Done"]),
        (OmdAgent::Fuxi, "Fuxi", vec!["Interview", "Explore", "Architect", "Plan", "Done"]),
        (OmdAgent::Pangu, "Pangu", vec!["LoadPlan", "Decompose", "Delegate", "Verify", "Done"]),
        (OmdAgent::Hongjun, "Hongjun", vec!["Intake", "Route", "Done"]),
    ]
}

fn all_phases() -> Vec<(OmdAgent, &'static str, OmdPhase)> {
    let mut v = Vec::new();
    for (agent, agent_name, phases) in agents() {
        for p in phases {
            v.push((agent, p, OmdPhase::from_agent_and_name(agent_name, p).unwrap()));
        }
    }
    v
}

#[test]
fn law_names_round_trip() {
    for (_, name, phase) in all_phases() {
        assert_eq!(phase.name(), name);
    }
    assert_eq!(all_phases().len(), 17);
}

#[test]
fn law_control_tools_in_every_phase() {
    for (_, _, phase) in all_phases() {
        let policy = PhaseToolPolicy::for_phase(&phase);
        assert!(policy.is_allowed("omd_phase_complete"));
        assert!(policy.is_allowed("omd_state_read"));
    }
}

#[test]
fn law_only_execute_edits_and_writes() {
    for (agent, name, phase) in all_phases() {
        let policy = PhaseToolPolicy::for_phase(&phase);
        let execute = agent == OmdAgent::Tongtian && name == "Execute";
        let plan = agent == OmdAgent::Fuxi && name == "Plan";
        assert_eq!(policy.is_allowed("edit_file"), execute);
        assert_eq!(policy.is_allowed("apply_patch"), execute);
        assert_eq!(policy.is_allowed("write_file"), execute || plan);
    }
}

#[test]
fn law_shell_tier_matches_tools() {
    for (_, _, phase) in all_phases() {
        let policy = PhaseToolPolicy::for_phase(&phase);
        assert_eq!(policy.shell_policy() == ShellPolicy::Full, policy.is_allow_all());
        assert_eq!(policy.shell_policy() != ShellPolicy::NoShell, policy.is_allowed("exec_shell"));
    }
}

#[test]
fn law_transitions_land_on_target_and_done_is_terminal() {
    for (agent, name, _) in all_phases() {
        let fsm = OmdFsm::with_phase(agent, name).unwrap();
        let next = fsm.valid_next_phases();
        if name == "Done" {
            assert!(next.is_empty());
        }
        for target in next {
            let mut moved = OmdFsm::with_phase(agent, name).unwrap();
            assert!(moved.try_transition(target).is_ok());
            assert_eq!(moved.current_phase_name(), target);
            assert_eq!(moved.agent(), agent);
        }
    }
}

#[test]
fn law_explicit_skip_satisfies_every_transition() {
    for (_, _, phase) in all_phases() {
        for target in ["Explore", "Execute", "Verify", "Done", "Plan", "Delegate", "Route"] {
            assert!(check_evidence_requirements(&phase, target, &["ExplicitSkip"]).is_ok());
            let required: Vec<&str> =
                required_evidence_for(&phase, target).iter().map(|r| omd::transition_guards::evidence_name(*r)).collect();
            assert!(check_evidence_requirements(&phase, target, &required).is_ok());
        }
    }
}

#[test]
fn law_workers_cannot_hand_work_on() {
    let registry = WorkerRegistry::new();
    for w in registry.all() {
        assert!(!w.can_delegate);
        for tool in ["agent_open", "omd_delegate", "omd_checkpoint"] {
            assert!(!w.allowed_tools.contains(&tool), "{} holds {}", w.id, tool);
        }
        assert_eq!(registry.get(w.id).unwrap().id, w.id);
    }
}

#[test]
fn law_read_only_workers_cannot_write() {
    let registry = WorkerRegistry::new();
    for id in ["kunpeng", "yangmei", "nuwa", "tingfeng"] {
        let w = registry.get(id).unwrap();
        assert!(!w.can_write_code);
        for tool in ["edit_file", "write_file", "apply_patch"] {
            assert!(!w.allowed_tools.contains(&tool), "{} holds {}", id, tool);
        }
    }
}

#[test]
fn law_shell_tier_extremes() {
    for cmd in ["rm -rf /", "ls", "cat a | grep b", ""] {
        assert!(validate_command(cmd, ShellPolicy::Full).is_ok());
        assert!(validate_command(cmd, ShellPolicy::NoShell).is_err());
    }
}

#[test]
fn law_read_only_shell_refuses_every_unsafe_form() {
    for cmd in [
        "cat a | sh",
        "echo x > f",
        "echo $(whoami)",
        "echo `whoami`",
        "echo \"$(whoami)\"",
        "diff <(ls a) <(ls b)",
        "rm -rf target",
        "ls && rm x",
    ] {
        assert!(validate_command(cmd, ShellPolicy::ReadOnly).is_err(), "{}", cmd);
    }
    assert!(validate_command("echo '$(whoami)'", ShellPolicy::ReadOnly).is_ok());
    assert!(validate_command("ls -la && git status", ShellPolicy::ReadOnly).is_ok());
}

#[test]
fn law_exhausted_task_cannot_retry() {
    let mut graph = TaskGraph::new();
    let mut t = Task::new("T1", "Flaky");
    t.max_attempts = 1;
    graph.add_task(t);
    graph.set_status("T1", TaskStatus::Active).unwrap();
    graph.set_status("T1", TaskStatus::Failed).unwrap();
    assert!(graph.set_status("T1", TaskStatus::Active).is_err());
}

#[test]
fn law_single_active_task() {
    let mut graph = TaskGraph::new();
    graph.add_task(Task::new("T1", "one"));
    graph.add_task(Task::new("T2", "two"));
    graph.set_status("T1", TaskStatus::Active).unwrap();
    let _ = graph.set_status("T2", TaskStatus::Active);
    let active = graph.tasks.iter().filter(|t| t.status == TaskStatus::Active).count();
    assert!(active <= 1);
}

#[test]
fn law_replayed_transition_sets_phase() {
    let events = vec![
        SessionEvent::PhaseTransition { to: Some("Execute".to_string()) },
        SessionEvent::Other,
        SessionEvent::PhaseTransition { to: Some("Verify".to_string()) },
    ];
    assert_eq!(rebuild_from_events(&events), Some("Verify".to_string()));
}

#[test]
fn substitution_is_found_wherever_the_shell_expands_it() {
    assert!(has_command_substitution("echo \"$(rm -rf /)\""));
    assert!(has_command_substitution("echo \"`whoami`\""));
    assert!(has_command_substitution("echo \"a `id` b\""));
    assert!(!has_command_substitution("echo '$(id)'"));
    assert!(!has_command_substitution("echo \"plain text\""));
    assert!(!has_command_substitution("echo \\$(id)"));
    assert!(has_command_substitution("echo $(id)"));
}

#[test]
fn law_model_cannot_approve_its_own_skip() {
    let mut rt = OmdRuntimeState::new(OmdAgent::Tongtian, "/tmp/omd-workspace");
    let effects_before = rt.effects.len();
    let items = vec![EvidenceItem {
        claim: Ok(EvidenceClaim::ExplicitSkip { reason: "no files".to_string() }),
        observations: ClaimObservations { exists: vec![], diff_stat: String::new(), plan: Err(String::new()) },
    }];
    let r = rt.handle_phase_complete_tool("Execute", "r", &items, &[None]);
    assert_eq!(
        r.err(),
        Some("Evidence requires user acknowledgment before phase transition: no files. Confirm via /omd-phase-complete.".to_string())
    );
    assert_eq!(rt.fsm.current_phase_name(), "Explore");
    assert_eq!(rt.effects.len(), effects_before);
    assert!(matches!(rt.handle_user_phase_complete("Execute"), PhaseReply::Moved { .. }));
    assert_eq!(rt.fsm.current_phase_name(), "Execute");
}

#[test]
fn law_zhurong_may_write() {
    let registry = WorkerRegistry::new();
    assert!(registry.get("zhurong").unwrap().can_write_code);
}

#[test]
fn law_repeated_dependency_is_no_cycle() {
    let mut graph = TaskGraph::new();
    graph.add_task(Task::new("A", "first"));
    let mut b = Task::new("B", "second");
    b.depends_on = vec!["A".to_string(), "A".to_string()];
    graph.add_task(b);
    assert!(graph.validate().is_ok());
    let mut c = Task::new("C", "loops");
    c.depends_on = vec!["C".to_string()];
    graph.add_task(c);
    assert!(graph.validate().unwrap_err().contains("cycle"));
}

#[test]
fn law_restricted_phases_register_only_allowed_tools() {
    let settings = RegistrySettings {
        allow_shell: true,
        has_client: true,
        apply_patch: true,
        web_search: true,
        shell_tool: true,
        vision_model: true,
        has_vision_config: true,
        memory_enabled: true,
    };
    for (agent, _, phase) in all_phases() {
        let mode = match agent {
            OmdAgent::Tongtian => AppMode::OmdTongtian,
            OmdAgent::Fuxi => AppMode::OmdFuxi,
            OmdAgent::Pangu => AppMode::OmdPangu,
            OmdAgent::Hongjun => AppMode::OmdHongjun,
        };
        let policy = PhaseToolPolicy::for_phase(&phase);
        match plan_tool_registry(mode, Some(phase), settings) {
            ToolRegistryPlan::PhaseTools(v) => {
                assert!(!policy.is_allow_all());
                for t in &v {
                    assert!(policy.is_allowed(t), "{} registered in {}", t, phase.name());
                }
                assert_eq!(v.len(), policy.allowed_list().len());
            }
            ToolRegistryPlan::Groups(_) => assert!(policy.is_allow_all()),
        }
    }
}

#[test]
fn law_done_report_on_pending_task_is_replayed() {
    let events = vec![
        SessionEvent::SessionStart {
            agent: Some("Pangu".to_string()),
            phase: Some("Delegate".to_string()),
            ts: Some("t0".to_string()),
        },
        SessionEvent::TaskUpdate {
            task_definition: Some(Task::new("T1", "Implement feature")),
            task_id: Some("T1".to_string()),
            status: Some("Done".to_string()),
        },
    ];
    let state = rebuild_full_state_from_events(events, "sid", "later".to_string()).unwrap();
    assert_eq!(state.task_graph.unwrap().get("T1").unwrap().status, TaskStatus::Done);
    // The transition table itself still refuses Pending → Done.
    let mut graph = TaskGraph::new();
    graph.add_task(Task::new("T1", "x"));
    assert!(graph.set_status("T1", TaskStatus::Done).is_err());
    assert!(graph.report_status("T1", TaskStatus::Done).is_ok());
}

#[test]
fn law_unquoted_match_is_containment() {
    assert!(has_unquoted("ls -la", "-la"));
    assert!(!has_unquoted("ls -la", "-x"));
    assert!(!has_unquoted("echo '|'", "|"));
    assert!(has_unquoted("anything", ""));
}

#[test]
fn law_quote_free_input_tokenizes() {
    assert_eq!(tokenize("git log  -n 3").unwrap(), vec!["git", "log", "-n", "3"]);
    assert!(tokenize("a && b | c > d $(e) `f`").is_ok());
    assert!(tokenize("echo 'open").is_err());
}

#[test]
fn law_split_pieces_are_trimmed_and_ordered() {
    let r = split_commands("  ls -la &&  git status ; echo x  ");
    assert_eq!(r.len(), 3);
    assert_eq!(r[0], (Operator::First, "ls -la".to_string()));
    assert_eq!(r[1], (Operator::And, "git status".to_string()));
    assert_eq!(r[2], (Operator::Semi, "echo x".to_string()));
    for (_, p) in &r {
        assert_eq!(p.trim(), p);
        assert!(!p.is_empty());
    }
    assert_eq!(split_commands("  cat a.txt  "), vec![(Operator::First, "cat a.txt".to_string())]);
    assert!(split_commands("   ").is_empty());
}

#[test]
fn law_read_only_chain_needs_each_part() {
    assert!(validate_command("ls -la && git status", ShellPolicy::ReadOnly).is_ok());
    assert!(validate_command("ls -la && rm x", ShellPolicy::ReadOnly).is_err());
    assert!(validate_command("rm x", ShellPolicy::ReadOnly).is_err());
}

#[test]
fn law_diff_stat_entries_follow_lines() {
    let out = " b.rs | 2 +-\n summary line\n a.rs | 1 +\n 2 files changed, 2 insertions(+)\n";
    let stats = parse_git_diff_stat(out);
    assert_eq!(stats.len(), 2);
    assert!(stats.len() <= out.lines().count());
    assert_eq!(stats[0].path, "b.rs");
    assert_eq!(stats[1].path, "a.rs");
    for s in &stats {
        assert_eq!(s.path.trim(), s.path);
        assert!(!s.path.contains('|'));
    }
}

#[test]
fn law_delegation_refusals_follow_the_rules() {
    assert!(matches!(
        plan_delegation_at(OmdAgent::Pangu, "Delegate", "nobody", "t", &[], &[], 0, 0),
        Err(DelegationError::InvalidInput(_))
    ));
    assert!(matches!(
        plan_delegation_at(OmdAgent::Pangu, "Verify", "kunpeng", "t", &[], &[], 0, 0),
        Err(DelegationError::PermissionDenied(_))
    ));
    assert!(matches!(
        plan_delegation_at(OmdAgent::Fuxi, "Explore", "shennong", "t", &[], &[], 0, 0),
        Err(DelegationError::PermissionDenied(_))
    ));
    assert!(matches!(
        plan_delegation_at(OmdAgent::Tongtian, "Explore", "zhurong", "t", &[], &[], 0, 0),
        Err(DelegationError::PermissionDenied(_))
    ));
    let plan = plan_delegation_at(OmdAgent::Tongtian, "Execute", "zhurong", "t", &[], &[], 0, 0).unwrap();
    let registry = WorkerRegistry::new();
    assert_eq!(plan.allowed_tools, registry.get("zhurong").unwrap().allowed_tools);
}

#[test]
fn law_words_tokenize_like_split_whitespace() {
    for input in ["ls -la  src/", "\tgit\tlog -n 3 ", "", "   ", "a.b/c_d-e"] {
        let expected: Vec<String> = input.split_whitespace().map(String::from).collect();
        assert_eq!(tokenize(input).unwrap(), expected, "{:?}", input);
    }
}

#[test]
fn law_split_pieces_occur_in_order() {
    let input = " cat a ;  ls b && echo 'x;y' | wc ";
    let mut from = 0;
    for (_, piece) in split_commands(input) {
        let at = input[from..].find(piece.as_str()).expect("piece in input") + from;
        from = at + piece.len();
    }
}

#[test]
fn law_validate_names_the_first_fault() {
    let mut g = TaskGraph::new();
    g.add_task(Task::new("A", "a"));
    g.add_task(Task::new("A", "again"));
    assert_eq!(g.validate().unwrap_err(), "Duplicate task ID: A");
    let mut g = TaskGraph::new();
    let mut a = Task::new("A", "a");
    a.depends_on = vec!["X".to_string(), "Y".to_string()];
    g.add_task(a);
    assert_eq!(g.validate().unwrap_err(), "Task 'A' depends on non-existent 'X'");
    let mut g = TaskGraph::new();
    let mut a = Task::new("A", "a");
    a.depends_on = vec!["B".to_string()];
    let mut b = Task::new("B", "b");
    b.depends_on = vec!["A".to_string()];
    g.add_task(a);
    g.add_task(b);
    assert_eq!(g.validate().unwrap_err(), "Task graph contains a cycle");
}

#[test]
fn law_replay_takes_the_last_start_and_phase() {
    let start = |agent: &str, phase: Option<&str>, ts: &str| SessionEvent::SessionStart {
        agent: Some(agent.to_string()),
        phase: phase.map(|p| p.to_string()),
        ts: Some(ts.to_string()),
    };
    let events = vec![
        start("Fuxi", Some("Interview"), "t0"),
        SessionEvent::PhaseTransition { to: Some("Explore".to_string()) },
        start("Pangu", Some("LoadPlan"), "t1"),
        SessionEvent::PhaseTransition { to: Some("Decompose".to_string()) },
        SessionEvent::PhaseTransition { to: None },
    ];
    let s = rebuild_full_state_from_events(events, "sid", "now".to_string()).unwrap();
    assert_eq!((s.agent.as_str(), s.phase.as_str(), s.started_at.as_str()), ("Pangu", "Decompose", "t1"));
    let events = vec![start("Fuxi", Some("Interview"), "t0"), start("Pangu", None, "t1")];
    assert!(rebuild_full_state_from_events(events, "sid", "now".to_string()).is_none());
}
