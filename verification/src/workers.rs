//! The worker agents that the executor can hand bounded tasks to.
use vstd::prelude::*;
use crate::text::{str_eq, str_views};

verus! {

/// Configuration of one worker agent that a lead agent can delegate to.
#[derive(Debug, Clone)]
pub struct OmdWorkerConfig {
    pub id: &'static str,
    pub display_name: &'static str,
    pub role_description: &'static str,
    pub system_prompt_prefix: &'static str,
    pub allowed_tools: Vec<&'static str>,
    pub can_write_code: bool,
    pub can_delegate: bool,
    /// Reasoning effort level for this worker: "off", "high", or "max".
    pub reasoning_effort: &'static str,
}

/// Number of workers in the registry.
pub open spec fn worker_count() -> int {
    8
}

/// Id of the `i`-th worker.
pub open spec fn spec_worker_id(i: int) -> Seq<char> {
    if i == 0 { "tongtian-junior"@ } else if i == 1 { "kunpeng"@ } else if i == 2 { "nuwa"@ } else if i == 3 { "shennong"@ } else if i == 4 { "yangmei"@ } else if i == 5 { "cangjie"@ } else if i == 6 { "zhurong"@ } else { "tingfeng"@ }
}

/// Display name of the `i`-th worker.
pub open spec fn spec_worker_display_name(i: int) -> Seq<char> {
    if i == 0 { "通天 Junior"@ } else if i == 1 { "鲲鹏 Kunpeng"@ } else if i == 2 { "女娲 Nuwa"@ } else if i == 3 { "神农 Shennong"@ } else if i == 4 { "杨眉 Yangmei"@ } else if i == 5 { "仓颉 Cangjie"@ } else if i == 6 { "祝融 Zhurong"@ } else { "听风 Tingfeng"@ }
}

/// Role description of the `i`-th worker.
pub open spec fn spec_worker_role(i: int) -> Seq<char> {
    if i == 0 { "Code executor — implements specific tasks"@ } else if i == 1 { "Explorer — deep codebase analysis"@ } else if i == 2 { "Verifier — runs tests and validates changes"@ } else if i == 3 { "Test engineer — writes and runs tests"@ } else if i == 4 { "Critic — judges code quality"@ } else if i == 5 { "Documentation writer — creates and updates docs"@ } else if i == 6 { "Debugger — diagnoses and traces issues"@ } else { "Web researcher — searches topics and fetches pages"@ }
}

/// System prompt prefix of the `i`-th worker.
pub open spec fn spec_worker_prompt(i: int) -> Seq<char> {
    if i == 0 { "You are Tongtian-Junior, a focused code executor. Your job is to implement the specific task assigned to you cleanly and completely. Write code, run tests, verify your work. Do NOT explore beyond the task scope or refactor unrelated code."@ } else if i == 1 { "You are Kunpeng, a codebase explorer. Your job is to thoroughly explore and analyze the codebase to answer questions or find patterns. Report your findings clearly and concisely. Do NOT modify any files."@ } else if i == 2 { "You are Nuwa, a verifier. Your job is to verify that implementation work is correct by running tests, checking build status, and validating behavior. Report pass/fail with evidence. Do NOT fix issues — only verify and report."@ } else if i == 3 { "You are Shennong, a test engineer. Your job is to write tests for the specified functionality, run them, and report results. Focus on test quality: meaningful assertions, edge cases, clear test names."@ } else if i == 4 { "You are Yangmei, a code critic. Your job is to examine code changes for correctness, style, and potential issues. Provide specific feedback with file:line references. Do NOT modify any files."@ } else if i == 5 { "You are Cangjie, a documentation writer. Your job is to create or update documentation files (.md, comments, README). Write clearly and concisely. Only modify documentation files."@ } else if i == 6 { "You are Zhurong, a debugger. Your job is to diagnose issues by reading code, running targeted commands, and tracing execution flow. Report root cause analysis. Do NOT fix issues — only diagnose and report."@ } else { "You are Tingfeng, a web researcher. Your job is to search the web for the given topics and read the pages you find. Report your findings with their sources. Do NOT modify any files."@ }
}

/// Tools the `i`-th worker may call.
pub open spec fn spec_worker_tools(i: int) -> Seq<Seq<char>> {
    if i == 0 { seq!["read_file"@, "grep_files"@, "file_search"@, "list_dir"@, "edit_file"@, "write_file"@, "apply_patch"@, "exec_shell"@, "exec_shell_wait"@, "git_status"@, "git_diff"@] } else if i == 1 { seq!["read_file"@, "grep_files"@, "file_search"@, "list_dir"@, "git_log"@, "git_diff"@, "git_show"@, "git_blame"@] } else if i == 2 { seq!["read_file"@, "grep_files"@, "file_search"@, "list_dir"@, "exec_shell"@, "exec_shell_wait"@, "git_status"@, "git_diff"@] } else if i == 3 { seq!["read_file"@, "grep_files"@, "file_search"@, "list_dir"@, "write_file"@, "edit_file"@, "exec_shell"@, "exec_shell_wait"@, "git_status"@, "git_diff"@] } else if i == 4 { seq!["read_file"@, "grep_files"@, "file_search"@, "list_dir"@, "git_diff"@, "git_log"@, "git_show"@] } else if i == 5 { seq!["read_file"@, "grep_files"@, "file_search"@, "list_dir"@, "write_file"@, "edit_file"@, "git_status"@, "git_diff"@] } else if i == 6 { seq!["read_file"@, "grep_files"@, "file_search"@, "list_dir"@, "exec_shell"@, "exec_shell_wait"@, "git_log"@, "git_diff"@, "git_show"@, "git_blame"@] } else { seq!["read_file"@, "grep_files"@, "file_search"@, "list_dir"@, "web_search"@] }
}

/// Whether the `i`-th worker may write code.
pub open spec fn spec_worker_writes(i: int) -> bool {
    if i == 0 { true } else if i == 1 { false } else if i == 2 { false } else if i == 3 { true } else if i == 4 { false } else if i == 5 { true } else if i == 6 { true } else { false }
}

/// Reasoning effort of the `i`-th worker.
pub open spec fn spec_worker_effort(i: int) -> Seq<char> {
    if i == 0 { "high"@ } else if i == 1 { "off"@ } else if i == 2 { "high"@ } else if i == 3 { "high"@ } else if i == 4 { "off"@ } else if i == 5 { "off"@ } else if i == 6 { "high"@ } else { "off"@ }
}

/// `w` is the `i`-th worker of the registry.
pub open spec fn describes(w: OmdWorkerConfig, i: int) -> bool {
    &&& w.id@ == spec_worker_id(i)
    &&& w.display_name@ == spec_worker_display_name(i)
    &&& w.role_description@ == spec_worker_role(i)
    &&& w.system_prompt_prefix@ == spec_worker_prompt(i)
    &&& str_views(w.allowed_tools@) == spec_worker_tools(i)
    &&& w.can_write_code == spec_worker_writes(i)
    &&& !w.can_delegate
    &&& w.reasoning_effort@ == spec_worker_effort(i)
}

/// Index of the first worker at or after `k` whose id is `id`.
pub open spec fn worker_index_from(id: Seq<char>, k: int) -> Option<int>
    decreases worker_count() - k,
{
    if k < 0 || k >= worker_count() {
        None
    } else if spec_worker_id(k) == id {
        Some(k)
    } else {
        worker_index_from(id, k + 1)
    }
}

/// Index of the worker whose id is `id`.
pub open spec fn spec_worker_index(id: Seq<char>) -> Option<int> {
    worker_index_from(id, 0)
}

/// Ids of the workers that only read: the ones a lead agent may use
/// while it gathers information.
pub open spec fn read_only_worker_ids() -> Seq<Seq<char>> {
    seq!["kunpeng"@, "yangmei"@, "nuwa"@, "tingfeng"@]
}

/// Every worker of the registry, in order.
pub open spec fn registry_holds(ws: Seq<OmdWorkerConfig>) -> bool {
    &&& ws.len() == worker_count()
    &&& forall|i: int| 0 <= i < worker_count() ==> describes(#[trigger] ws[i], i)
}

fn worker_config(
    id: &'static str,
    display_name: &'static str,
    role_description: &'static str,
    system_prompt_prefix: &'static str,
    allowed_tools: Vec<&'static str>,
    can_write_code: bool,
    reasoning_effort: &'static str,
) -> (r: OmdWorkerConfig)
    ensures
        r.id == id,
        r.display_name == display_name,
        r.role_description == role_description,
        r.system_prompt_prefix == system_prompt_prefix,
        r.allowed_tools@ == allowed_tools@,
        r.can_write_code == can_write_code,
        !r.can_delegate,
        r.reasoning_effort == reasoning_effort,
{
    OmdWorkerConfig {
        id,
        display_name,
        role_description,
        system_prompt_prefix,
        allowed_tools,
        can_write_code,
        can_delegate: false,
        reasoning_effort,
    }
}

fn all_workers() -> (r: Vec<OmdWorkerConfig>)
    ensures
        registry_holds(r@),
{
    let mut ws: Vec<OmdWorkerConfig> = Vec::new();
    let tools: Vec<&'static str> = vec!["read_file", "grep_files", "file_search", "list_dir", "edit_file", "write_file", "apply_patch", "exec_shell", "exec_shell_wait", "git_status", "git_diff"];
    assert(str_views(tools@) =~= spec_worker_tools(0));
    ws.push(worker_config("tongtian-junior", "通天 Junior", "Code executor — implements specific tasks", "You are Tongtian-Junior, a focused code executor. Your job is to implement the specific task assigned to you cleanly and completely. Write code, run tests, verify your work. Do NOT explore beyond the task scope or refactor unrelated code.", tools, true, "high"));
    assert(describes(ws@[0], 0));
    let tools: Vec<&'static str> = vec!["read_file", "grep_files", "file_search", "list_dir", "git_log", "git_diff", "git_show", "git_blame"];
    assert(str_views(tools@) =~= spec_worker_tools(1));
    ws.push(worker_config("kunpeng", "鲲鹏 Kunpeng", "Explorer — deep codebase analysis", "You are Kunpeng, a codebase explorer. Your job is to thoroughly explore and analyze the codebase to answer questions or find patterns. Report your findings clearly and concisely. Do NOT modify any files.", tools, false, "off"));
    assert(describes(ws@[1], 1));
    let tools: Vec<&'static str> = vec!["read_file", "grep_files", "file_search", "list_dir", "exec_shell", "exec_shell_wait", "git_status", "git_diff"];
    assert(str_views(tools@) =~= spec_worker_tools(2));
    ws.push(worker_config("nuwa", "女娲 Nuwa", "Verifier — runs tests and validates changes", "You are Nuwa, a verifier. Your job is to verify that implementation work is correct by running tests, checking build status, and validating behavior. Report pass/fail with evidence. Do NOT fix issues — only verify and report.", tools, false, "high"));
    assert(describes(ws@[2], 2));
    let tools: Vec<&'static str> = vec!["read_file", "grep_files", "file_search", "list_dir", "write_file", "edit_file", "exec_shell", "exec_shell_wait", "git_status", "git_diff"];
    assert(str_views(tools@) =~= spec_worker_tools(3));
    ws.push(worker_config("shennong", "神农 Shennong", "Test engineer — writes and runs tests", "You are Shennong, a test engineer. Your job is to write tests for the specified functionality, run them, and report results. Focus on test quality: meaningful assertions, edge cases, clear test names.", tools, true, "high"));
    assert(describes(ws@[3], 3));
    let tools: Vec<&'static str> = vec!["read_file", "grep_files", "file_search", "list_dir", "git_diff", "git_log", "git_show"];
    assert(str_views(tools@) =~= spec_worker_tools(4));
    ws.push(worker_config("yangmei", "杨眉 Yangmei", "Critic — judges code quality", "You are Yangmei, a code critic. Your job is to examine code changes for correctness, style, and potential issues. Provide specific feedback with file:line references. Do NOT modify any files.", tools, false, "off"));
    assert(describes(ws@[4], 4));
    let tools: Vec<&'static str> = vec!["read_file", "grep_files", "file_search", "list_dir", "write_file", "edit_file", "git_status", "git_diff"];
    assert(str_views(tools@) =~= spec_worker_tools(5));
    ws.push(worker_config("cangjie", "仓颉 Cangjie", "Documentation writer — creates and updates docs", "You are Cangjie, a documentation writer. Your job is to create or update documentation files (.md, comments, README). Write clearly and concisely. Only modify documentation files.", tools, true, "off"));
    assert(describes(ws@[5], 5));
    let tools: Vec<&'static str> = vec!["read_file", "grep_files", "file_search", "list_dir", "exec_shell", "exec_shell_wait", "git_log", "git_diff", "git_show", "git_blame"];
    assert(str_views(tools@) =~= spec_worker_tools(6));
    ws.push(worker_config("zhurong", "祝融 Zhurong", "Debugger — diagnoses and traces issues", "You are Zhurong, a debugger. Your job is to diagnose issues by reading code, running targeted commands, and tracing execution flow. Report root cause analysis. Do NOT fix issues — only diagnose and report.", tools, true, "high"));
    assert(describes(ws@[6], 6));
    let tools: Vec<&'static str> = vec!["read_file", "grep_files", "file_search", "list_dir", "web_search"];
    assert(str_views(tools@) =~= spec_worker_tools(7));
    ws.push(worker_config("tingfeng", "听风 Tingfeng", "Web researcher — searches topics and fetches pages", "You are Tingfeng, a web researcher. Your job is to search the web for the given topics and read the pages you find. Report your findings with their sources. Do NOT modify any files.", tools, false, "off"));
    assert(describes(ws@[7], 7));
    ws
}

/// Registry of all available worker agents.
pub struct WorkerRegistry {
    workers: Vec<OmdWorkerConfig>,
}

impl WorkerRegistry {
    #[verifier::type_invariant]
    spec fn holds_all(self) -> bool {
        registry_holds(self.workers@)
    }

    /// The workers the registry holds, in registry order.
    pub closed spec fn spec_workers(&self) -> Seq<OmdWorkerConfig> {
        self.workers@
    }

    /// The registry of every worker: it holds exactly the workers
    /// `describes` gives, one per index, in registry order.
    pub fn new() -> (r: Self)
        ensures
            registry_holds(r.spec_workers()),
    {
        WorkerRegistry { workers: all_workers() }
    }

    /// The worker whose id is `id`, if there is one.
    pub fn get(&self, id: &str) -> (r: Option<&OmdWorkerConfig>)
        ensures
            match spec_worker_index(id@) {
                Some(i) => r matches Some(w) && describes(*w, i),
                None => r is None,
            },
    {
        proof {
            use_type_invariant(self);
        }
        let mut k: usize = 0;
        while k < self.workers.len()
            invariant
                registry_holds(self.workers@),
                k <= self.workers.len(),
                spec_worker_index(id@) == worker_index_from(id@, k as int),
            decreases self.workers.len() - k,
        {
            if str_eq(self.workers[k].id, id) {
                return Some(&self.workers[k]);
            }
            k += 1;
        }
        None
    }

    /// Every worker, in registry order.
    pub fn all(&self) -> (r: &[OmdWorkerConfig])
        ensures
            r@ == self.spec_workers(),
            registry_holds(r@),
    {
        proof {
            use_type_invariant(self);
        }
        self.workers.as_slice()
    }
}

// ───────────────────────────── laws ─────────────────────────────

/// The documented worker roster: eight workers, each with its id, whether
/// it may write code, its reasoning effort and its tools. The read-only
/// workers are the explorer, the critic, the verifier and the web
/// researcher.
pub proof fn lemma_worker_table()
    ensures
        worker_count() == 8,
        spec_worker_id(0) == "tongtian-junior"@ && spec_worker_writes(0) == true && spec_worker_effort(0) == "high"@,
        spec_worker_tools(0) == seq!["read_file"@, "grep_files"@, "file_search"@, "list_dir"@, "edit_file"@, "write_file"@, "apply_patch"@, "exec_shell"@, "exec_shell_wait"@, "git_status"@, "git_diff"@],
        spec_worker_id(1) == "kunpeng"@ && spec_worker_writes(1) == false && spec_worker_effort(1) == "off"@,
        spec_worker_tools(1) == seq!["read_file"@, "grep_files"@, "file_search"@, "list_dir"@, "git_log"@, "git_diff"@, "git_show"@, "git_blame"@],
        spec_worker_id(2) == "nuwa"@ && spec_worker_writes(2) == false && spec_worker_effort(2) == "high"@,
        spec_worker_tools(2) == seq!["read_file"@, "grep_files"@, "file_search"@, "list_dir"@, "exec_shell"@, "exec_shell_wait"@, "git_status"@, "git_diff"@],
        spec_worker_id(3) == "shennong"@ && spec_worker_writes(3) == true && spec_worker_effort(3) == "high"@,
        spec_worker_tools(3) == seq!["read_file"@, "grep_files"@, "file_search"@, "list_dir"@, "write_file"@, "edit_file"@, "exec_shell"@, "exec_shell_wait"@, "git_status"@, "git_diff"@],
        spec_worker_id(4) == "yangmei"@ && spec_worker_writes(4) == false && spec_worker_effort(4) == "off"@,
        spec_worker_tools(4) == seq!["read_file"@, "grep_files"@, "file_search"@, "list_dir"@, "git_diff"@, "git_log"@, "git_show"@],
        spec_worker_id(5) == "cangjie"@ && spec_worker_writes(5) == true && spec_worker_effort(5) == "off"@,
        spec_worker_tools(5) == seq!["read_file"@, "grep_files"@, "file_search"@, "list_dir"@, "write_file"@, "edit_file"@, "git_status"@, "git_diff"@],
        spec_worker_id(6) == "zhurong"@ && spec_worker_writes(6) == true && spec_worker_effort(6) == "high"@,
        spec_worker_tools(6) == seq!["read_file"@, "grep_files"@, "file_search"@, "list_dir"@, "exec_shell"@, "exec_shell_wait"@, "git_log"@, "git_diff"@, "git_show"@, "git_blame"@],
        spec_worker_id(7) == "tingfeng"@ && spec_worker_writes(7) == false && spec_worker_effort(7) == "off"@,
        spec_worker_tools(7) == seq!["read_file"@, "grep_files"@, "file_search"@, "list_dir"@, "web_search"@],
        read_only_worker_ids() == seq!["kunpeng"@, "yangmei"@, "nuwa"@, "tingfeng"@],
{
}

/// No two workers share an id, so a lookup by id names one worker.
pub proof fn lemma_worker_ids_distinct(i: int, j: int)
    requires
        0 <= i < worker_count(),
        0 <= j < worker_count(),
        i != j,
    ensures
        spec_worker_id(i) != spec_worker_id(j),
{
    reveal_strlit("tongtian-junior");
    reveal_strlit("kunpeng");
    reveal_strlit("nuwa");
    reveal_strlit("shennong");
    reveal_strlit("yangmei");
    reveal_strlit("cangjie");
    reveal_strlit("zhurong");
    reveal_strlit("tingfeng");
    assert("tongtian-junior"@.len() == 15 && "kunpeng"@.len() == 7);
    assert("tongtian-junior"@.len() == 15 && "nuwa"@.len() == 4);
    assert("tongtian-junior"@.len() == 15 && "shennong"@.len() == 8);
    assert("tongtian-junior"@.len() == 15 && "yangmei"@.len() == 7);
    assert("tongtian-junior"@.len() == 15 && "cangjie"@.len() == 7);
    assert("tongtian-junior"@.len() == 15 && "zhurong"@.len() == 7);
    assert("tongtian-junior"@.len() == 15 && "tingfeng"@.len() == 8);
    assert("kunpeng"@.len() == 7 && "nuwa"@.len() == 4);
    assert("kunpeng"@.len() == 7 && "shennong"@.len() == 8);
    assert("kunpeng"@[0] == 'k' && "yangmei"@[0] == 'y');
    assert("kunpeng"@[0] == 'k' && "cangjie"@[0] == 'c');
    assert("kunpeng"@[0] == 'k' && "zhurong"@[0] == 'z');
    assert("kunpeng"@.len() == 7 && "tingfeng"@.len() == 8);
    assert("nuwa"@.len() == 4 && "shennong"@.len() == 8);
    assert("nuwa"@.len() == 4 && "yangmei"@.len() == 7);
    assert("nuwa"@.len() == 4 && "cangjie"@.len() == 7);
    assert("nuwa"@.len() == 4 && "zhurong"@.len() == 7);
    assert("nuwa"@.len() == 4 && "tingfeng"@.len() == 8);
    assert("shennong"@.len() == 8 && "yangmei"@.len() == 7);
    assert("shennong"@.len() == 8 && "cangjie"@.len() == 7);
    assert("shennong"@.len() == 8 && "zhurong"@.len() == 7);
    assert("shennong"@[0] == 's' && "tingfeng"@[0] == 't');
    assert("yangmei"@[0] == 'y' && "cangjie"@[0] == 'c');
    assert("yangmei"@[0] == 'y' && "zhurong"@[0] == 'z');
    assert("yangmei"@.len() == 7 && "tingfeng"@.len() == 8);
    assert("cangjie"@[0] == 'c' && "zhurong"@[0] == 'z');
    assert("cangjie"@.len() == 7 && "tingfeng"@.len() == 8);
    assert("zhurong"@.len() == 7 && "tingfeng"@.len() == 8);
}

/// Looking up a worker's own id finds that worker.
pub proof fn lemma_lookup_finds_worker(i: int)
    requires
        0 <= i < worker_count(),
    ensures
        spec_worker_index(spec_worker_id(i)) == Some(i),
{
    assert forall|j: int| 0 <= j < i implies spec_worker_id(j) != spec_worker_id(i) by {
        lemma_worker_ids_distinct(j, i);
    }
    lemma_index_from(spec_worker_id(i), i, 0);
}

/// A lookup that finds a worker finds one whose id is the one asked for.
pub proof fn lemma_index_in_range(id: Seq<char>)
    ensures
        spec_worker_index(id) matches Some(i) ==> 0 <= i < worker_count() && spec_worker_id(i) == id,
{
    lemma_index_from_range(id, 0);
}

proof fn lemma_index_from_range(id: Seq<char>, k: int)
    requires
        0 <= k,
    ensures
        worker_index_from(id, k) matches Some(i) ==> k <= i < worker_count() && spec_worker_id(i) == id,
    decreases worker_count() - k,
{
    if k < worker_count() && spec_worker_id(k) != id {
        lemma_index_from_range(id, k + 1);
    }
}

proof fn lemma_index_from(id: Seq<char>, i: int, k: int)
    requires
        0 <= k <= i < worker_count(),
        spec_worker_id(i) == id,
        forall|j: int| k <= j < i ==> spec_worker_id(j) != id,
    ensures
        worker_index_from(id, k) == Some(i),
    decreases i - k,
{
    if k < i {
        lemma_index_from(id, i, k + 1);
    }
}

/// No worker can hand work on: none may delegate, and none holds
/// `agent_open`, `omd_delegate` or `omd_checkpoint`.
pub proof fn lemma_workers_cannot_delegate(i: int)
    requires
        0 <= i < worker_count(),
    ensures
        !spec_worker_tools(i).contains("agent_open"@),
        !spec_worker_tools(i).contains("omd_delegate"@),
        !spec_worker_tools(i).contains("omd_checkpoint"@),
{
    reveal_strlit("apply_patch");
    reveal_strlit("edit_file");
    reveal_strlit("exec_shell");
    reveal_strlit("exec_shell_wait");
    reveal_strlit("file_search");
    reveal_strlit("git_blame");
    reveal_strlit("git_diff");
    reveal_strlit("git_log");
    reveal_strlit("git_show");
    reveal_strlit("git_status");
    reveal_strlit("grep_files");
    reveal_strlit("list_dir");
    reveal_strlit("read_file");
    reveal_strlit("web_search");
    reveal_strlit("write_file");
    reveal_strlit("agent_open");
    reveal_strlit("omd_delegate");
    reveal_strlit("omd_checkpoint");
    assert("agent_open"@.len() == 10 && "apply_patch"@.len() == 11);
    assert("agent_open"@.len() == 10 && "edit_file"@.len() == 9);
    assert("agent_open"@[0] == 'a' && "exec_shell"@[0] == 'e');
    assert("agent_open"@.len() == 10 && "exec_shell_wait"@.len() == 15);
    assert("agent_open"@.len() == 10 && "file_search"@.len() == 11);
    assert("agent_open"@.len() == 10 && "git_blame"@.len() == 9);
    assert("agent_open"@.len() == 10 && "git_diff"@.len() == 8);
    assert("agent_open"@.len() == 10 && "git_log"@.len() == 7);
    assert("agent_open"@.len() == 10 && "git_show"@.len() == 8);
    assert("agent_open"@[0] == 'a' && "git_status"@[0] == 'g');
    assert("agent_open"@[0] == 'a' && "grep_files"@[0] == 'g');
    assert("agent_open"@.len() == 10 && "list_dir"@.len() == 8);
    assert("agent_open"@.len() == 10 && "read_file"@.len() == 9);
    assert("agent_open"@[0] == 'a' && "web_search"@[0] == 'w');
    assert("agent_open"@[0] == 'a' && "write_file"@[0] == 'w');
    assert("omd_delegate"@.len() == 12 && "apply_patch"@.len() == 11);
    assert("omd_delegate"@.len() == 12 && "edit_file"@.len() == 9);
    assert("omd_delegate"@.len() == 12 && "exec_shell"@.len() == 10);
    assert("omd_delegate"@.len() == 12 && "exec_shell_wait"@.len() == 15);
    assert("omd_delegate"@.len() == 12 && "file_search"@.len() == 11);
    assert("omd_delegate"@.len() == 12 && "git_blame"@.len() == 9);
    assert("omd_delegate"@.len() == 12 && "git_diff"@.len() == 8);
    assert("omd_delegate"@.len() == 12 && "git_log"@.len() == 7);
    assert("omd_delegate"@.len() == 12 && "git_show"@.len() == 8);
    assert("omd_delegate"@.len() == 12 && "git_status"@.len() == 10);
    assert("omd_delegate"@.len() == 12 && "grep_files"@.len() == 10);
    assert("omd_delegate"@.len() == 12 && "list_dir"@.len() == 8);
    assert("omd_delegate"@.len() == 12 && "read_file"@.len() == 9);
    assert("omd_delegate"@.len() == 12 && "web_search"@.len() == 10);
    assert("omd_delegate"@.len() == 12 && "write_file"@.len() == 10);
    assert("omd_checkpoint"@.len() == 14 && "apply_patch"@.len() == 11);
    assert("omd_checkpoint"@.len() == 14 && "edit_file"@.len() == 9);
    assert("omd_checkpoint"@.len() == 14 && "exec_shell"@.len() == 10);
    assert("omd_checkpoint"@.len() == 14 && "exec_shell_wait"@.len() == 15);
    assert("omd_checkpoint"@.len() == 14 && "file_search"@.len() == 11);
    assert("omd_checkpoint"@.len() == 14 && "git_blame"@.len() == 9);
    assert("omd_checkpoint"@.len() == 14 && "git_diff"@.len() == 8);
    assert("omd_checkpoint"@.len() == 14 && "git_log"@.len() == 7);
    assert("omd_checkpoint"@.len() == 14 && "git_show"@.len() == 8);
    assert("omd_checkpoint"@.len() == 14 && "git_status"@.len() == 10);
    assert("omd_checkpoint"@.len() == 14 && "grep_files"@.len() == 10);
    assert("omd_checkpoint"@.len() == 14 && "list_dir"@.len() == 8);
    assert("omd_checkpoint"@.len() == 14 && "read_file"@.len() == 9);
    assert("omd_checkpoint"@.len() == 14 && "web_search"@.len() == 10);
    assert("omd_checkpoint"@.len() == 14 && "write_file"@.len() == 10);
}

/// The read-only workers may not write code and hold no editing tool.
pub proof fn lemma_read_only_workers_cannot_write(i: int)
    requires
        0 <= i < worker_count(),
        read_only_worker_ids().contains(spec_worker_id(i)),
    ensures
        !spec_worker_writes(i),
        !spec_worker_tools(i).contains("edit_file"@),
        !spec_worker_tools(i).contains("write_file"@),
        !spec_worker_tools(i).contains("apply_patch"@),
{
    reveal_strlit("apply_patch");
    reveal_strlit("cangjie");
    reveal_strlit("edit_file");
    reveal_strlit("exec_shell");
    reveal_strlit("exec_shell_wait");
    reveal_strlit("file_search");
    reveal_strlit("git_blame");
    reveal_strlit("git_diff");
    reveal_strlit("git_log");
    reveal_strlit("git_show");
    reveal_strlit("git_status");
    reveal_strlit("grep_files");
    reveal_strlit("kunpeng");
    reveal_strlit("list_dir");
    reveal_strlit("nuwa");
    reveal_strlit("read_file");
    reveal_strlit("shennong");
    reveal_strlit("tingfeng");
    reveal_strlit("tongtian-junior");
    reveal_strlit("web_search");
    reveal_strlit("write_file");
    reveal_strlit("yangmei");
    reveal_strlit("zhurong");
    assert("tongtian-junior"@.len() == 15 && "kunpeng"@.len() == 7);
    assert("tongtian-junior"@.len() == 15 && "yangmei"@.len() == 7);
    assert("tongtian-junior"@.len() == 15 && "nuwa"@.len() == 4);
    assert("tongtian-junior"@.len() == 15 && "tingfeng"@.len() == 8);
    assert("shennong"@.len() == 8 && "kunpeng"@.len() == 7);
    assert("shennong"@.len() == 8 && "yangmei"@.len() == 7);
    assert("shennong"@.len() == 8 && "nuwa"@.len() == 4);
    assert("shennong"@[0] == 's' && "tingfeng"@[0] == 't');
    assert("cangjie"@[0] == 'c' && "kunpeng"@[0] == 'k');
    assert("cangjie"@[0] == 'c' && "yangmei"@[0] == 'y');
    assert("cangjie"@.len() == 7 && "nuwa"@.len() == 4);
    assert("cangjie"@.len() == 7 && "tingfeng"@.len() == 8);
    assert("zhurong"@[0] == 'z' && "kunpeng"@[0] == 'k');
    assert("zhurong"@[0] == 'z' && "yangmei"@[0] == 'y');
    assert("zhurong"@.len() == 7 && "nuwa"@.len() == 4);
    assert("zhurong"@.len() == 7 && "tingfeng"@.len() == 8);
    assert("edit_file"@.len() == 9 && "exec_shell"@.len() == 10);
    assert("edit_file"@.len() == 9 && "exec_shell_wait"@.len() == 15);
    assert("edit_file"@.len() == 9 && "file_search"@.len() == 11);
    assert("edit_file"@[0] == 'e' && "git_blame"@[0] == 'g');
    assert("edit_file"@.len() == 9 && "git_diff"@.len() == 8);
    assert("edit_file"@.len() == 9 && "git_log"@.len() == 7);
    assert("edit_file"@.len() == 9 && "git_show"@.len() == 8);
    assert("edit_file"@.len() == 9 && "git_status"@.len() == 10);
    assert("edit_file"@.len() == 9 && "grep_files"@.len() == 10);
    assert("edit_file"@.len() == 9 && "list_dir"@.len() == 8);
    assert("edit_file"@[0] == 'e' && "read_file"@[0] == 'r');
    assert("edit_file"@.len() == 9 && "web_search"@.len() == 10);
    assert("write_file"@[0] == 'w' && "exec_shell"@[0] == 'e');
    assert("write_file"@.len() == 10 && "exec_shell_wait"@.len() == 15);
    assert("write_file"@.len() == 10 && "file_search"@.len() == 11);
    assert("write_file"@.len() == 10 && "git_blame"@.len() == 9);
    assert("write_file"@.len() == 10 && "git_diff"@.len() == 8);
    assert("write_file"@.len() == 10 && "git_log"@.len() == 7);
    assert("write_file"@.len() == 10 && "git_show"@.len() == 8);
    assert("write_file"@[0] == 'w' && "git_status"@[0] == 'g');
    assert("write_file"@[0] == 'w' && "grep_files"@[0] == 'g');
    assert("write_file"@.len() == 10 && "list_dir"@.len() == 8);
    assert("write_file"@.len() == 10 && "read_file"@.len() == 9);
    assert("write_file"@[1] == 'r' && "web_search"@[1] == 'e');
    assert("apply_patch"@.len() == 11 && "exec_shell"@.len() == 10);
    assert("apply_patch"@.len() == 11 && "exec_shell_wait"@.len() == 15);
    assert("apply_patch"@[0] == 'a' && "file_search"@[0] == 'f');
    assert("apply_patch"@.len() == 11 && "git_blame"@.len() == 9);
    assert("apply_patch"@.len() == 11 && "git_diff"@.len() == 8);
    assert("apply_patch"@.len() == 11 && "git_log"@.len() == 7);
    assert("apply_patch"@.len() == 11 && "git_show"@.len() == 8);
    assert("apply_patch"@.len() == 11 && "git_status"@.len() == 10);
    assert("apply_patch"@.len() == 11 && "grep_files"@.len() == 10);
    assert("apply_patch"@.len() == 11 && "list_dir"@.len() == 8);
    assert("apply_patch"@.len() == 11 && "read_file"@.len() == 9);
    assert("apply_patch"@.len() == 11 && "web_search"@.len() == 10);
    assert(read_only_worker_ids()[0] == "kunpeng"@);
}

} // verus!
