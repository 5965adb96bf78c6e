use omd::evidence::{
    first_evidence_error, judge_claim, parse_git_diff_stat, ClaimObservations, EvidenceClaim,
    EvidenceItem, VerificationResult,
};

fn observed(exists: Vec<bool>) -> ClaimObservations {
    ClaimObservations { exists, diff_stat: String::new(), plan: Err("not read".to_string()) }
}

#[test]
    fn parse_normal_multi_file_output() {
        let output = "\
 src/main.rs    | 15 +++++++++------
 src/lib.rs     |  3 +++
 tests/test.rs  |  8 +++++---
 3 files changed, 14 insertions(+), 9 deletions(-)
";
        let stats = parse_git_diff_stat(output);
        assert_eq!(stats.len(), 3);

        assert_eq!(stats[0].path, "src/main.rs");
        assert_eq!(stats[0].insertions, 9);
        assert_eq!(stats[0].deletions, 6);

        assert_eq!(stats[1].path, "src/lib.rs");
        assert_eq!(stats[1].insertions, 3);
        assert_eq!(stats[1].deletions, 0);

        assert_eq!(stats[2].path, "tests/test.rs");
        assert_eq!(stats[2].insertions, 5);
        assert_eq!(stats[2].deletions, 3);
    }

#[test]
    fn parse_binary_file_line() {
        let output = "\
 assets/image.png | Bin 0 -> 1234 bytes
 1 file changed, 0 insertions(+), 0 deletions(-)
";
        let stats = parse_git_diff_stat(output);
        assert_eq!(stats.len(), 1);
        assert_eq!(stats[0].path, "assets/image.png");
        assert_eq!(stats[0].insertions, 0);
        assert_eq!(stats[0].deletions, 0);
    }

#[test]
    fn parse_empty_output() {
        let stats = parse_git_diff_stat("");
        assert!(stats.is_empty());
    }

#[test]
    fn parse_single_file() {
        let output = " README.md | 2 +-\n 1 file changed, 1 insertion(+), 1 deletion(-)\n";
        let stats = parse_git_diff_stat(output);
        assert_eq!(stats.len(), 1);
        assert_eq!(stats[0].path, "README.md");
        assert_eq!(stats[0].insertions, 1);
        assert_eq!(stats[0].deletions, 1);
    }

#[test]
    fn parse_file_with_spaces_in_name() {
        // git diff --stat can show files with spaces in paths
        let output = " src/my file.rs | 4 ++++\n 1 file changed, 4 insertions(+), 0 deletions(-)\n";
        let stats = parse_git_diff_stat(output);
        assert_eq!(stats.len(), 1);
        assert_eq!(stats[0].path, "src/my file.rs");
        assert_eq!(stats[0].insertions, 4);
        assert_eq!(stats[0].deletions, 0);
    }

#[test]
    fn parse_only_summary_line_yields_empty() {
        let output = " 3 files changed, 14 insertions(+), 9 deletions(-)\n";
        let stats = parse_git_diff_stat(output);
        assert!(stats.is_empty());
    }

#[test]
fn file_discovery_valid_paths() {
    let claim = EvidenceClaim::FileDiscovery { paths: vec!["/tmp/ws/src/main.rs".to_string()] };
    let audit_log: Vec<(String, i32)> = vec![];
    assert!(judge_claim(&claim, &audit_log, &observed(vec![true])).is_ok());
}

#[test]
fn file_discovery_nonexistent_rejected() {
    let claim = EvidenceClaim::FileDiscovery { paths: vec!["/nonexistent/path.rs".to_string()] };
    let audit_log: Vec<(String, i32)> = vec![];
    let r = judge_claim(&claim, &audit_log, &observed(vec![false]));
    assert_eq!(r, Err("File not found: /nonexistent/path.rs".to_string()));
}

#[test]
fn plan_artifact_valid() {
    let claim = EvidenceClaim::PlanArtifact { path: "/tmp/ws/.omd/plans/test.md".to_string() };
    let audit_log: Vec<(String, i32)> = vec![];
    let obs = ClaimObservations {
        exists: vec![true],
        diff_stat: String::new(),
        plan: Ok("# Plan\n- [ ] Task 1\n- [ ] Task 2\n".to_string()),
    };
    assert!(judge_claim(&claim, &audit_log, &obs).is_ok());
}

#[test]
fn plan_artifact_no_checkboxes_rejected() {
    let claim = EvidenceClaim::PlanArtifact { path: "/tmp/ws/.omd/plans/bad.md".to_string() };
    let audit_log: Vec<(String, i32)> = vec![];
    let obs = ClaimObservations {
        exists: vec![true],
        diff_stat: String::new(),
        plan: Ok("# Plan\nNo tasks here\n".to_string()),
    };
    assert!(judge_claim(&claim, &audit_log, &obs).is_err());
}

#[test]
fn explicit_skip_returns_requires_user_ack() {
    let claim = EvidenceClaim::ExplicitSkip { reason: "No tests needed for docs-only change".to_string() };
    let audit_log: Vec<(String, i32)> = vec![];
    let result = judge_claim(&claim, &audit_log, &observed(vec![])).unwrap();
    assert_eq!(result, VerificationResult::RequiresUserAck {
        method: "explicit_skip".to_string(),
        reason: "No tests needed for docs-only change".to_string(),
    });
}

#[test]
fn test_result_matches_audit_log() {
    let audit_log = vec![
        ("cargo test -p omd".to_string(), 0),
        ("cargo check".to_string(), 0),
    ];
    let claim = EvidenceClaim::TestResult {
        command: "cargo test -p omd".to_string(),
        exit_code: 0,
        stdout_tail: None,
    };
    assert!(judge_claim(&claim, &audit_log, &observed(vec![])).is_ok());
}

#[test]
fn test_result_not_in_audit_log_rejected() {
    let audit_log = vec![("cargo check".to_string(), 0)];
    let claim = EvidenceClaim::TestResult {
        command: "cargo test -p omd".to_string(),
        exit_code: 0,
        stdout_tail: None,
    };
    assert!(judge_claim(&claim, &audit_log, &observed(vec![])).is_err());
}

#[test]
fn test_result_wrong_exit_code_in_audit_log_rejected() {
    let audit_log = vec![("cargo test -p omd".to_string(), 1)];
    let claim = EvidenceClaim::TestResult {
        command: "cargo test -p omd".to_string(),
        exit_code: 0,
        stdout_tail: None,
    };
    assert!(judge_claim(&claim, &audit_log, &observed(vec![])).is_err());
}

#[test]
fn git_diff_with_changed_files() {
    // Not a git repository: no diff output, so the file must exist.
    let claim = EvidenceClaim::GitDiff { changed_files: vec!["/tmp/ws/changed.rs".to_string()] };
    let audit_log: Vec<(String, i32)> = vec![];
    assert!(judge_claim(&claim, &audit_log, &observed(vec![true])).is_ok());
}

#[test]
fn git_diff_nonexistent_file_rejected() {
    let claim = EvidenceClaim::GitDiff { changed_files: vec!["/does/not/exist.rs".to_string()] };
    let audit_log: Vec<(String, i32)> = vec![];
    let r = judge_claim(&claim, &audit_log, &observed(vec![false]));
    assert_eq!(r, Err("Changed file not found: /does/not/exist.rs".to_string()));
}

// ── messages and the remaining rules ──

#[test]
fn evidence_messages_for_each_refusal() {
    let none: Vec<(String, i32)> = vec![];
    let r = judge_claim(&EvidenceClaim::FileDiscovery { paths: vec![] }, &none, &observed(vec![]));
    assert_eq!(r, Err("FileDiscovery evidence must contain at least one path".to_string()));
    let r = judge_claim(
        &EvidenceClaim::TestResult { command: String::new(), exit_code: 0, stdout_tail: None },
        &none,
        &observed(vec![]),
    );
    assert_eq!(r, Err("TestResult must specify command".to_string()));
    let r = judge_claim(
        &EvidenceClaim::TestResult { command: "cargo test".to_string(), exit_code: -3, stdout_tail: None },
        &none,
        &observed(vec![]),
    );
    assert_eq!(r, Err("TestResult exit_code -3 indicates failure".to_string()));
    let r = judge_claim(
        &EvidenceClaim::TestResult { command: "cargo test".to_string(), exit_code: 0, stdout_tail: None },
        &none,
        &observed(vec![]),
    );
    assert_eq!(
        r,
        Err("TestResult command 'cargo test' (exit_code=0) not found in shell audit log. The command must have been executed via exec_shell in this session with the exact same command string.".to_string())
    );
    let r = judge_claim(&EvidenceClaim::GitDiff { changed_files: vec![] }, &none, &observed(vec![]));
    assert_eq!(r, Err("GitDiff must list at least one changed file".to_string()));
    let r = judge_claim(&EvidenceClaim::PlanArtifact { path: "p.md".to_string() }, &none, &observed(vec![false]));
    assert_eq!(r, Err("Plan artifact not found: p.md".to_string()));
    let obs = ClaimObservations { exists: vec![true], diff_stat: String::new(), plan: Err("denied".to_string()) };
    let r = judge_claim(&EvidenceClaim::PlanArtifact { path: "p.md".to_string() }, &none, &obs);
    assert_eq!(r, Err("Cannot read plan: denied".to_string()));
    let obs = ClaimObservations { exists: vec![true], diff_stat: String::new(), plan: Ok("nothing".to_string()) };
    let r = judge_claim(&EvidenceClaim::PlanArtifact { path: "p.md".to_string() }, &none, &obs);
    assert_eq!(r, Err("Plan artifact must contain checkbox task markers (- [ ])".to_string()));
    let r = judge_claim(&EvidenceClaim::ExplicitSkip { reason: String::new() }, &none, &observed(vec![]));
    assert_eq!(r, Err("ExplicitSkip must provide a reason".to_string()));
}

#[test]
fn evidence_git_diff_checks_listed_files() {
    let none: Vec<(String, i32)> = vec![];
    let stat = " src/main.rs | 3 ++-\n 1 file changed, 2 insertions(+), 1 deletion(-)\n".to_string();
    let obs = ClaimObservations { exists: vec![], diff_stat: stat.clone(), plan: Err(String::new()) };
    // "./" is stripped and a suffix match is accepted.
    let claim = EvidenceClaim::GitDiff {
        changed_files: vec!["./src/main.rs".to_string(), "/abs/project/src/main.rs".to_string()],
    };
    match judge_claim(&claim, &none, &obs).unwrap() {
        VerificationResult::Verified { method, stats } => {
            assert_eq!(method, "git_diff_stat");
            let files = stats.unwrap().files;
            assert_eq!(files.len(), 1);
            assert_eq!(files[0].path, "src/main.rs");
            assert_eq!(files[0].insertions, 2);
            assert_eq!(files[0].deletions, 1);
        }
        _ => panic!("expected Verified"),
    }
    let obs = ClaimObservations { exists: vec![true], diff_stat: stat, plan: Err(String::new()) };
    let claim = EvidenceClaim::GitDiff { changed_files: vec!["src/other.rs".to_string()] };
    assert_eq!(
        judge_claim(&claim, &none, &obs),
        Err("Claimed changed file 'src/other.rs' not found in git diff --stat output".to_string())
    );
}

#[test]
fn evidence_items_gate_in_order() {
    let none: Vec<(String, i32)> = vec![];
    let items = vec![
        EvidenceItem {
            claim: Ok(EvidenceClaim::ExplicitSkip { reason: "docs only".to_string() }),
            observations: observed(vec![]),
        },
        EvidenceItem { claim: Err("{\"kind\":1}".to_string()), observations: observed(vec![]) },
    ];
    assert_eq!(
        first_evidence_error(&items, &none),
        Some("Evidence requires user acknowledgment before phase transition: docs only. Confirm via /omd-phase-complete.".to_string())
    );
    assert_eq!(
        first_evidence_error(&items[1..], &none),
        Some("Evidence claim could not be parsed as a valid EvidenceClaim type. Each evidence item must have a 'type' field (FileDiscovery, TestResult, GitDiff, PlanArtifact, or ExplicitSkip). Got: {\"kind\":1}".to_string())
    );
    let blank_skip = vec![EvidenceItem {
        claim: Ok(EvidenceClaim::ExplicitSkip { reason: "   ".to_string() }),
        observations: observed(vec![]),
    }];
    assert_eq!(
        first_evidence_error(&blank_skip, &none),
        Some("ExplicitSkip requires a non-empty reason explaining why evidence is being skipped.".to_string())
    );
    let missing = vec![EvidenceItem {
        claim: Ok(EvidenceClaim::FileDiscovery { paths: vec!["a.rs".to_string()] }),
        observations: observed(vec![false]),
    }];
    assert_eq!(first_evidence_error(&missing, &none), Some("Evidence verification failed: File not found: a.rs".to_string()));
    let fine = vec![EvidenceItem {
        claim: Ok(EvidenceClaim::FileDiscovery { paths: vec!["a.rs".to_string()] }),
        observations: observed(vec![true]),
    }];
    assert_eq!(first_evidence_error(&fine, &none), None);
}

#[test]
fn parse_crlf_lines_and_unicode_whitespace() {
    let output = " a.rs | 2 ++\r\n\u{3000}b.rs\u{3000}|\u{3000}1 -\r\n";
    let stats = parse_git_diff_stat(output);
    assert_eq!(stats.len(), 2);
    assert_eq!(stats[0].path, "a.rs");
    assert_eq!(stats[0].insertions, 2);
    assert_eq!(stats[1].path, "b.rs");
    assert_eq!(stats[1].deletions, 1);
    // A line without a path or without `|` describes nothing.
    assert!(parse_git_diff_stat(" | 3 +++\nno pipe here\n").is_empty());
}
