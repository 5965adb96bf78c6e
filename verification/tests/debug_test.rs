use omd::debug::{DebugEntry, DetailField, OmdDebugLogger};

fn entry(event: &str) -> DebugEntry {
    DebugEntry {
        ts: None,
        event: Some(event.to_string()),
        tool: None,
        status: None,
        detail: DetailField::Missing,
        from: None,
        to: None,
        raw: None,
        agent: None,
        phase: None,
    }
}

fn tool_call(tool: &str, status: &str, detail: &str) -> DebugEntry {
    let mut e = entry("tool_call");
    e.ts = Some("2026-05-18T14:00:01.5+00:00".to_string());
    e.tool = Some(tool.to_string());
    e.status = Some(status.to_string());
    e.detail = DetailField::Text(detail.to_string());
    e.agent = Some("Fuxi".to_string());
    e.phase = Some("Explore".to_string());
    e
}

fn transition(from: &str, to: &str) -> DebugEntry {
    let mut e = entry("phase_transition");
    e.ts = Some("2026-05-18T14:02:00Z".to_string());
    e.from = Some(from.to_string());
    e.to = Some(to.to_string());
    e
}

#[test]
fn format_summary_includes_key_sections() {
    let logger = OmdDebugLogger::new("/tmp/ws");
    let entries = vec![
        tool_call("web_search", "blocked", "not in allowlist"),
        tool_call("web_search", "blocked", "not in allowlist"),
        transition("Interview", "Explore"),
    ];

    let summary = logger.format_summary(
        "Fuxi",
        "Explore",
        "test-session-id",
        "2026-05-18T14:00:00Z",
        &["read_file", "grep_files", "omd_phase_complete"],
        &entries,
    );

    assert!(summary.contains("=== OMD Debug Status ==="));
    assert!(summary.contains("Agent: Fuxi"));
    assert!(summary.contains("Phase: Explore"));
    assert!(summary.contains("Session: test-session-id"));
    assert!(summary.contains("Available tools (3)"));
    assert!(summary.contains("read_file"));
    assert!(summary.contains("Recent events"));
    assert!(summary.contains("[tool_call]"));
    assert!(summary.contains("BLOCKED"));
    assert!(summary.contains("Errors"));
    assert!(summary.contains("web_search blocked in Explore phase"));
    assert!(summary.contains("Phase history"));
}

#[test]
fn debug_summary_exact_text() {
    let logger = OmdDebugLogger::new("/tmp/ws");
    assert_eq!(logger.path(), "/tmp/ws/.omd/debug.jsonl");
    let mut skip = entry("evidence_skip");
    skip.raw = Some("x".repeat(70));
    let mut failed = entry("phase_transition_failed");
    failed.detail = DetailField::Text("no evidence".to_string());
    let mut other = entry("custom");
    other.detail = DetailField::Other("{\"n\":1}".to_string());
    let entries = vec![
        tool_call("web_search", "blocked", "not in allowlist"),
        tool_call("read_file", "ok", ""),
        transition("Interview", "Explore"),
        skip,
        failed,
        other,
        tool_call("web_search", "blocked", "again"),
    ];
    let summary = logger.format_summary("Fuxi", "Explore", "sid", "start", &[], &entries);
    let expected = format!(
        "=== OMD Debug Status ===\nAgent: Fuxi\nPhase: Explore\nSession: sid\nStarted: start\n\nAvailable tools (0):\n  \nRecent events (last 7):\n  14:00:01.5 [tool_call] web_search -> BLOCKED (not in allowlist)\n  14:00:01.5 [tool_call] read_file -> OK\n  14:02:00 [phase_transition] Interview -> Explore\n  ? [evidence_skip] skipped: {}\n  ? [phase_transition_failed] ? -> ?\n  ? [custom] {{\"n\":1}}\n  14:00:01.5 [tool_call] web_search -> BLOCKED (again)\n\nErrors (last 4):\n  evidence_skip\n  phase_transition_failed: no evidence\n  2x web_search blocked in Explore phase\n\nPhase history:\n  Interview -> Explore (14:02:00)\n",
        "x".repeat(60)
    );
    assert_eq!(summary, expected);
}

#[test]
fn debug_summary_wraps_tool_list() {
    let logger = OmdDebugLogger::new("/tmp/ws");
    let tools = [
        "read_file", "grep_files", "file_search", "list_dir", "git_status", "git_diff", "git_log",
        "git_show", "omd_phase_complete",
    ];
    let summary = logger.format_summary("a", "b", "c", "d", &tools, &[]);
    assert!(summary.ends_with(
        "Available tools (9):\n  read_file, grep_files, file_search, list_dir, git_status, git_diff,\n  git_log, git_show, omd_phase_complete\n"
    ));
}

#[test]
fn debug_summary_shows_the_given_status_text() {
    let entries = vec![tool_call("web_search", "blocked", "")];
    let summary = OmdDebugLogger::format_summary_with("A", "P", "s", "t", &[], &entries, &["HALTED".to_string()]);
    assert!(summary.contains("[tool_call] web_search -> HALTED\n"), "{}", summary);
    let logger = OmdDebugLogger::new("/tmp/ws");
    let upper = logger.format_summary("A", "P", "s", "t", &[], &entries);
    assert!(upper.contains("[tool_call] web_search -> BLOCKED\n"), "{}", upper);
    let sharp_s = vec![tool_call("x", "straße", "")];
    assert!(logger.format_summary("A", "P", "s", "t", &[], &sharp_s).contains("-> STRASSE\n"));
}

#[test]
fn debug_summary_ignores_raw_text_of_other_events() {
    let mut e = tool_call("read_file", "ok", "");
    e.raw = Some(format!("{}é", "x".repeat(59)));
    let logger = OmdDebugLogger::new("/tmp/ws");
    assert!(logger.format_summary("A", "P", "s", "t", &[], &[e]).contains("read_file -> OK"));
}
