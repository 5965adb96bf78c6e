//! Per-phase tool allowlists: which tools each workflow phase may call.
use vstd::prelude::*;
use crate::shell_policy::ShellPolicy;
use crate::text::{str_eq, str_views};
use crate::types::{phase_name, FuxiPhase, HongjunPhase, OmdPhase, PanguPhase, TongtianPhase};

verus! {

/// Names of the tools phase `p` allows (empty when it allows every tool).
pub open spec fn spec_phase_tools(p: OmdPhase) -> Seq<Seq<char>> {
    match p {
        OmdPhase::Tongtian(TongtianPhase::Explore) => seq!["read_file"@, "grep_files"@, "file_search"@, "list_dir"@, "git_status"@, "git_diff"@, "git_log"@, "git_show"@, "git_blame"@, "diagnostics"@, "exec_shell"@, "exec_shell_wait"@, "agent_open"@, "omd_delegate"@, "omd_phase_complete"@, "omd_checkpoint"@, "omd_state_read"@],
        OmdPhase::Tongtian(TongtianPhase::Execute) => seq![],
        OmdPhase::Tongtian(TongtianPhase::Verify) => seq!["read_file"@, "grep_files"@, "file_search"@, "list_dir"@, "git_status"@, "git_diff"@, "git_log"@, "git_show"@, "exec_shell"@, "exec_shell_wait"@, "omd_phase_complete"@, "omd_checkpoint"@, "omd_state_read"@],
        OmdPhase::Tongtian(TongtianPhase::Done) => seq!["omd_phase_complete"@, "omd_checkpoint"@, "omd_state_read"@],
        OmdPhase::Fuxi(FuxiPhase::Interview) => seq!["read_file"@, "grep_files"@, "file_search"@, "list_dir"@, "omd_phase_complete"@, "omd_state_read"@],
        OmdPhase::Fuxi(FuxiPhase::Explore) => seq!["read_file"@, "grep_files"@, "file_search"@, "list_dir"@, "git_log"@, "git_diff"@, "git_show"@, "git_blame"@, "agent_open"@, "omd_delegate"@, "omd_phase_complete"@, "omd_state_read"@],
        OmdPhase::Fuxi(FuxiPhase::Architect) => seq!["read_file"@, "grep_files"@, "file_search"@, "list_dir"@, "git_log"@, "git_diff"@, "agent_open"@, "omd_delegate"@, "omd_phase_complete"@, "omd_checkpoint"@, "omd_state_read"@],
        OmdPhase::Fuxi(FuxiPhase::Plan) => seq!["read_file"@, "grep_files"@, "file_search"@, "list_dir"@, "write_file"@, "omd_phase_complete"@, "omd_state_read"@],
        OmdPhase::Fuxi(FuxiPhase::Done) => seq!["omd_phase_complete"@, "omd_checkpoint"@, "omd_state_read"@],
        OmdPhase::Pangu(PanguPhase::LoadPlan) => seq!["read_file"@, "grep_files"@, "file_search"@, "list_dir"@, "omd_phase_complete"@, "omd_state_read"@],
        OmdPhase::Pangu(PanguPhase::Decompose) => seq!["read_file"@, "grep_files"@, "file_search"@, "list_dir"@, "omd_phase_complete"@, "omd_checkpoint"@, "omd_state_read"@],
        OmdPhase::Pangu(PanguPhase::Delegate) => seq!["read_file"@, "grep_files"@, "file_search"@, "list_dir"@, "omd_delegate"@, "agent_eval"@, "agent_close"@, "omd_phase_complete"@, "omd_checkpoint"@, "omd_state_read"@],
        OmdPhase::Pangu(PanguPhase::Verify) => seq!["read_file"@, "grep_files"@, "file_search"@, "list_dir"@, "exec_shell"@, "exec_shell_wait"@, "omd_delegate"@, "agent_eval"@, "agent_close"@, "omd_phase_complete"@, "omd_checkpoint"@, "omd_state_read"@],
        OmdPhase::Pangu(PanguPhase::Done) => seq!["omd_phase_complete"@, "omd_checkpoint"@, "omd_state_read"@],
        OmdPhase::Hongjun(HongjunPhase::Intake) => seq!["read_file"@, "grep_files"@, "file_search"@, "list_dir"@, "omd_phase_complete"@, "omd_state_read"@],
        OmdPhase::Hongjun(HongjunPhase::Route) => seq!["read_file"@, "omd_phase_complete"@, "omd_state_read"@],
        OmdPhase::Hongjun(HongjunPhase::Done) => seq!["omd_phase_complete"@, "omd_checkpoint"@, "omd_state_read"@],
    }
}

/// Phase `p` allows every tool.
pub open spec fn spec_allows_all(p: OmdPhase) -> bool {
    p == OmdPhase::Tongtian(TongtianPhase::Execute)
}

/// Phase `p` allows tool `t`.
pub open spec fn spec_tool_allowed(p: OmdPhase, t: Seq<char>) -> bool {
    spec_allows_all(p) || spec_phase_tools(p).contains(t)
}

/// The shell tier of phase `p`.
pub open spec fn spec_shell_policy(p: OmdPhase) -> ShellPolicy {
    match p {
        OmdPhase::Tongtian(TongtianPhase::Explore) => ShellPolicy::ReadOnly,
        OmdPhase::Tongtian(TongtianPhase::Execute) => ShellPolicy::Full,
        OmdPhase::Tongtian(TongtianPhase::Verify) => ShellPolicy::ReadOnly,
        OmdPhase::Tongtian(TongtianPhase::Done) => ShellPolicy::NoShell,
        OmdPhase::Fuxi(FuxiPhase::Interview) => ShellPolicy::NoShell,
        OmdPhase::Fuxi(FuxiPhase::Explore) => ShellPolicy::NoShell,
        OmdPhase::Fuxi(FuxiPhase::Architect) => ShellPolicy::NoShell,
        OmdPhase::Fuxi(FuxiPhase::Plan) => ShellPolicy::NoShell,
        OmdPhase::Fuxi(FuxiPhase::Done) => ShellPolicy::NoShell,
        OmdPhase::Pangu(PanguPhase::LoadPlan) => ShellPolicy::NoShell,
        OmdPhase::Pangu(PanguPhase::Decompose) => ShellPolicy::NoShell,
        OmdPhase::Pangu(PanguPhase::Delegate) => ShellPolicy::NoShell,
        OmdPhase::Pangu(PanguPhase::Verify) => ShellPolicy::ReadOnly,
        OmdPhase::Pangu(PanguPhase::Done) => ShellPolicy::NoShell,
        OmdPhase::Hongjun(HongjunPhase::Intake) => ShellPolicy::NoShell,
        OmdPhase::Hongjun(HongjunPhase::Route) => ShellPolicy::NoShell,
        OmdPhase::Hongjun(HongjunPhase::Done) => ShellPolicy::NoShell,
    }
}

/// The tools one workflow phase may call.
pub struct PhaseToolPolicy {
    allowed: Vec<&'static str>,
    allow_all: bool,
    shell: ShellPolicy,
}

impl PhaseToolPolicy {
    /// Names of the tools on the allowlist.
    pub closed spec fn spec_allowed(&self) -> Seq<Seq<char>> {
        str_views(self.allowed@)
    }

    /// Whether every tool is allowed.
    pub closed spec fn spec_allow_all(&self) -> bool {
        self.allow_all
    }

    /// The shell tier.
    pub closed spec fn spec_shell(&self) -> ShellPolicy {
        self.shell
    }

    /// The policy of phase `phase`.
    pub fn for_phase(phase: &OmdPhase) -> (r: Self)
        ensures
            r.spec_allowed() == spec_phase_tools(*phase),
            r.spec_allow_all() == spec_allows_all(*phase),
            r.spec_shell() == spec_shell_policy(*phase),
    {
        let allowed: Vec<&'static str> = match phase {
            OmdPhase::Tongtian(TongtianPhase::Explore) => vec!["read_file", "grep_files", "file_search", "list_dir", "git_status", "git_diff", "git_log", "git_show", "git_blame", "diagnostics", "exec_shell", "exec_shell_wait", "agent_open", "omd_delegate", "omd_phase_complete", "omd_checkpoint", "omd_state_read"],
            OmdPhase::Tongtian(TongtianPhase::Execute) => vec![],
            OmdPhase::Tongtian(TongtianPhase::Verify) => vec!["read_file", "grep_files", "file_search", "list_dir", "git_status", "git_diff", "git_log", "git_show", "exec_shell", "exec_shell_wait", "omd_phase_complete", "omd_checkpoint", "omd_state_read"],
            OmdPhase::Tongtian(TongtianPhase::Done) => vec!["omd_phase_complete", "omd_checkpoint", "omd_state_read"],
            OmdPhase::Fuxi(FuxiPhase::Interview) => vec!["read_file", "grep_files", "file_search", "list_dir", "omd_phase_complete", "omd_state_read"],
            OmdPhase::Fuxi(FuxiPhase::Explore) => vec!["read_file", "grep_files", "file_search", "list_dir", "git_log", "git_diff", "git_show", "git_blame", "agent_open", "omd_delegate", "omd_phase_complete", "omd_state_read"],
            OmdPhase::Fuxi(FuxiPhase::Architect) => vec!["read_file", "grep_files", "file_search", "list_dir", "git_log", "git_diff", "agent_open", "omd_delegate", "omd_phase_complete", "omd_checkpoint", "omd_state_read"],
            OmdPhase::Fuxi(FuxiPhase::Plan) => vec!["read_file", "grep_files", "file_search", "list_dir", "write_file", "omd_phase_complete", "omd_state_read"],
            OmdPhase::Fuxi(FuxiPhase::Done) => vec!["omd_phase_complete", "omd_checkpoint", "omd_state_read"],
            OmdPhase::Pangu(PanguPhase::LoadPlan) => vec!["read_file", "grep_files", "file_search", "list_dir", "omd_phase_complete", "omd_state_read"],
            OmdPhase::Pangu(PanguPhase::Decompose) => vec!["read_file", "grep_files", "file_search", "list_dir", "omd_phase_complete", "omd_checkpoint", "omd_state_read"],
            OmdPhase::Pangu(PanguPhase::Delegate) => vec!["read_file", "grep_files", "file_search", "list_dir", "omd_delegate", "agent_eval", "agent_close", "omd_phase_complete", "omd_checkpoint", "omd_state_read"],
            OmdPhase::Pangu(PanguPhase::Verify) => vec!["read_file", "grep_files", "file_search", "list_dir", "exec_shell", "exec_shell_wait", "omd_delegate", "agent_eval", "agent_close", "omd_phase_complete", "omd_checkpoint", "omd_state_read"],
            OmdPhase::Pangu(PanguPhase::Done) => vec!["omd_phase_complete", "omd_checkpoint", "omd_state_read"],
            OmdPhase::Hongjun(HongjunPhase::Intake) => vec!["read_file", "grep_files", "file_search", "list_dir", "omd_phase_complete", "omd_state_read"],
            OmdPhase::Hongjun(HongjunPhase::Route) => vec!["read_file", "omd_phase_complete", "omd_state_read"],
            OmdPhase::Hongjun(HongjunPhase::Done) => vec!["omd_phase_complete", "omd_checkpoint", "omd_state_read"],
        };
        assert(str_views(allowed@) =~= spec_phase_tools(*phase));
        let allow_all = match phase {
            OmdPhase::Tongtian(TongtianPhase::Execute) => true,
            _ => false,
        };
        let shell = match phase {
            OmdPhase::Tongtian(TongtianPhase::Explore) => ShellPolicy::ReadOnly,
            OmdPhase::Tongtian(TongtianPhase::Execute) => ShellPolicy::Full,
            OmdPhase::Tongtian(TongtianPhase::Verify) => ShellPolicy::ReadOnly,
            OmdPhase::Pangu(PanguPhase::Verify) => ShellPolicy::ReadOnly,
            _ => ShellPolicy::NoShell,
        };
        PhaseToolPolicy { allowed, allow_all, shell }
    }

    /// Whether the policy allows tool `tool_name`.
    pub fn is_allowed(&self, tool_name: &str) -> (r: bool)
        ensures
            r == (self.spec_allow_all() || self.spec_allowed().contains(tool_name@)),
    {
        if self.allow_all {
            return true;
        }
        let mut k: usize = 0;
        while k < self.allowed.len()
            invariant
                k <= self.allowed.len(),
                forall|m: int| 0 <= m < k ==> self.spec_allowed()[m] != tool_name@,
            decreases self.allowed.len() - k,
        {
            if str_eq(self.allowed[k], tool_name) {
                assert(self.spec_allowed()[k as int] == tool_name@);
                return true;
            }
            k += 1;
        }
        false
    }

    /// Whether every tool is allowed.
    pub fn is_allow_all(&self) -> (r: bool)
        ensures
            r == self.spec_allow_all(),
    {
        self.allow_all
    }

    /// The allowlist.
    pub fn allowed_list(&self) -> (r: &[&'static str])
        ensures
            str_views(r@) == self.spec_allowed(),
    {
        self.allowed.as_slice()
    }

    /// The shell tier: full shell when every tool is allowed, read-only
    /// where the allowlist holds the shell tools, none elsewhere.
    pub fn shell_policy(&self) -> (r: ShellPolicy)
        ensures
            r == self.spec_shell(),
    {
        self.shell
    }
}

// ───────────────────────────── laws ─────────────────────────────

/// The control tools `omd_phase_complete` and `omd_state_read` are
/// available in every phase.
pub proof fn lemma_control_tools_always_allowed(p: OmdPhase)
    ensures
        spec_tool_allowed(p, "omd_phase_complete"@),
        spec_tool_allowed(p, "omd_state_read"@),
{
    match p {
        OmdPhase::Tongtian(TongtianPhase::Explore) => { assert(spec_phase_tools(p)[14] == "omd_phase_complete"@); },
        OmdPhase::Tongtian(TongtianPhase::Verify) => { assert(spec_phase_tools(p)[10] == "omd_phase_complete"@); },
        OmdPhase::Tongtian(TongtianPhase::Done) => { assert(spec_phase_tools(p)[0] == "omd_phase_complete"@); },
        OmdPhase::Fuxi(FuxiPhase::Interview) => { assert(spec_phase_tools(p)[4] == "omd_phase_complete"@); },
        OmdPhase::Fuxi(FuxiPhase::Explore) => { assert(spec_phase_tools(p)[10] == "omd_phase_complete"@); },
        OmdPhase::Fuxi(FuxiPhase::Architect) => { assert(spec_phase_tools(p)[8] == "omd_phase_complete"@); },
        OmdPhase::Fuxi(FuxiPhase::Plan) => { assert(spec_phase_tools(p)[5] == "omd_phase_complete"@); },
        OmdPhase::Fuxi(FuxiPhase::Done) => { assert(spec_phase_tools(p)[0] == "omd_phase_complete"@); },
        OmdPhase::Pangu(PanguPhase::LoadPlan) => { assert(spec_phase_tools(p)[4] == "omd_phase_complete"@); },
        OmdPhase::Pangu(PanguPhase::Decompose) => { assert(spec_phase_tools(p)[4] == "omd_phase_complete"@); },
        OmdPhase::Pangu(PanguPhase::Delegate) => { assert(spec_phase_tools(p)[7] == "omd_phase_complete"@); },
        OmdPhase::Pangu(PanguPhase::Verify) => { assert(spec_phase_tools(p)[9] == "omd_phase_complete"@); },
        OmdPhase::Pangu(PanguPhase::Done) => { assert(spec_phase_tools(p)[0] == "omd_phase_complete"@); },
        OmdPhase::Hongjun(HongjunPhase::Intake) => { assert(spec_phase_tools(p)[4] == "omd_phase_complete"@); },
        OmdPhase::Hongjun(HongjunPhase::Route) => { assert(spec_phase_tools(p)[1] == "omd_phase_complete"@); },
        OmdPhase::Hongjun(HongjunPhase::Done) => { assert(spec_phase_tools(p)[0] == "omd_phase_complete"@); },
        _ => {},
    }
    match p {
        OmdPhase::Tongtian(TongtianPhase::Explore) => { assert(spec_phase_tools(p)[16] == "omd_state_read"@); },
        OmdPhase::Tongtian(TongtianPhase::Verify) => { assert(spec_phase_tools(p)[12] == "omd_state_read"@); },
        OmdPhase::Tongtian(TongtianPhase::Done) => { assert(spec_phase_tools(p)[2] == "omd_state_read"@); },
        OmdPhase::Fuxi(FuxiPhase::Interview) => { assert(spec_phase_tools(p)[5] == "omd_state_read"@); },
        OmdPhase::Fuxi(FuxiPhase::Explore) => { assert(spec_phase_tools(p)[11] == "omd_state_read"@); },
        OmdPhase::Fuxi(FuxiPhase::Architect) => { assert(spec_phase_tools(p)[10] == "omd_state_read"@); },
        OmdPhase::Fuxi(FuxiPhase::Plan) => { assert(spec_phase_tools(p)[6] == "omd_state_read"@); },
        OmdPhase::Fuxi(FuxiPhase::Done) => { assert(spec_phase_tools(p)[2] == "omd_state_read"@); },
        OmdPhase::Pangu(PanguPhase::LoadPlan) => { assert(spec_phase_tools(p)[5] == "omd_state_read"@); },
        OmdPhase::Pangu(PanguPhase::Decompose) => { assert(spec_phase_tools(p)[6] == "omd_state_read"@); },
        OmdPhase::Pangu(PanguPhase::Delegate) => { assert(spec_phase_tools(p)[9] == "omd_state_read"@); },
        OmdPhase::Pangu(PanguPhase::Verify) => { assert(spec_phase_tools(p)[11] == "omd_state_read"@); },
        OmdPhase::Pangu(PanguPhase::Done) => { assert(spec_phase_tools(p)[2] == "omd_state_read"@); },
        OmdPhase::Hongjun(HongjunPhase::Intake) => { assert(spec_phase_tools(p)[5] == "omd_state_read"@); },
        OmdPhase::Hongjun(HongjunPhase::Route) => { assert(spec_phase_tools(p)[2] == "omd_state_read"@); },
        OmdPhase::Hongjun(HongjunPhase::Done) => { assert(spec_phase_tools(p)[2] == "omd_state_read"@); },
        _ => {},
    }
}

/// Only the execute phase of the solo executor may edit files.
pub proof fn lemma_only_execute_edits(p: OmdPhase)
    ensures
        spec_tool_allowed(p, "edit_file"@) <==> p == OmdPhase::Tongtian(TongtianPhase::Execute),
        spec_tool_allowed(p, "apply_patch"@) <==> p == OmdPhase::Tongtian(TongtianPhase::Execute),
{
    reveal_strlit("agent_close");
    reveal_strlit("agent_eval");
    reveal_strlit("agent_open");
    reveal_strlit("apply_patch");
    reveal_strlit("diagnostics");
    reveal_strlit("edit_file");
    reveal_strlit("exec_shell");
    reveal_strlit("exec_shell_wait");
    reveal_strlit("file_search");
    reveal_strlit("git_blame");
    reveal_strlit("git_diff");
    reveal_strlit("git_log");
    reveal_strlit("git_show");
    reveal_strlit("git_status");
    reveal_strlit("grep_files");
    reveal_strlit("list_dir");
    reveal_strlit("omd_checkpoint");
    reveal_strlit("omd_delegate");
    reveal_strlit("omd_phase_complete");
    reveal_strlit("omd_state_read");
    reveal_strlit("read_file");
    reveal_strlit("write_file");
    assert("edit_file"@.len() == 9 && "agent_close"@.len() == 11);
    assert("edit_file"@.len() == 9 && "agent_eval"@.len() == 10);
    assert("edit_file"@.len() == 9 && "agent_open"@.len() == 10);
    assert("edit_file"@.len() == 9 && "apply_patch"@.len() == 11);
    assert("edit_file"@.len() == 9 && "diagnostics"@.len() == 11);
    assert("edit_file"@.len() == 9 && "exec_shell"@.len() == 10);
    assert("edit_file"@.len() == 9 && "exec_shell_wait"@.len() == 15);
    assert("edit_file"@.len() == 9 && "file_search"@.len() == 11);
    assert("edit_file"@[0] == 'e' && "git_blame"@[0] == 'g');
    assert("edit_file"@.len() == 9 && "git_diff"@.len() == 8);
    assert("edit_file"@.len() == 9 && "git_log"@.len() == 7);
    assert("edit_file"@.len() == 9 && "git_show"@.len() == 8);
    assert("edit_file"@.len() == 9 && "git_status"@.len() == 10);
    assert("edit_file"@.len() == 9 && "grep_files"@.len() == 10);
    assert("edit_file"@.len() == 9 && "list_dir"@.len() == 8);
    assert("edit_file"@.len() == 9 && "omd_checkpoint"@.len() == 14);
    assert("edit_file"@.len() == 9 && "omd_delegate"@.len() == 12);
    assert("edit_file"@.len() == 9 && "omd_phase_complete"@.len() == 18);
    assert("edit_file"@.len() == 9 && "omd_state_read"@.len() == 14);
    assert("edit_file"@[0] == 'e' && "read_file"@[0] == 'r');
    assert("edit_file"@.len() == 9 && "write_file"@.len() == 10);
    assert("apply_patch"@[1] == 'p' && "agent_close"@[1] == 'g');
    assert("apply_patch"@.len() == 11 && "agent_eval"@.len() == 10);
    assert("apply_patch"@.len() == 11 && "agent_open"@.len() == 10);
    assert("apply_patch"@[0] == 'a' && "diagnostics"@[0] == 'd');
    assert("apply_patch"@.len() == 11 && "edit_file"@.len() == 9);
    assert("apply_patch"@.len() == 11 && "exec_shell"@.len() == 10);
    assert("apply_patch"@.len() == 11 && "exec_shell_wait"@.len() == 15);
    assert("apply_patch"@[0] == 'a' && "file_search"@[0] == 'f');
    assert("apply_patch"@.len() == 11 && "git_blame"@.len() == 9);
    assert("apply_patch"@.len() == 11 && "git_diff"@.len() == 8);
    assert("apply_patch"@.len() == 11 && "git_log"@.len() == 7);
    assert("apply_patch"@.len() == 11 && "git_show"@.len() == 8);
    assert("apply_patch"@.len() == 11 && "git_status"@.len() == 10);
    assert("apply_patch"@.len() == 11 && "grep_files"@.len() == 10);
    assert("apply_patch"@.len() == 11 && "list_dir"@.len() == 8);
    assert("apply_patch"@.len() == 11 && "omd_checkpoint"@.len() == 14);
    assert("apply_patch"@.len() == 11 && "omd_delegate"@.len() == 12);
    assert("apply_patch"@.len() == 11 && "omd_phase_complete"@.len() == 18);
    assert("apply_patch"@.len() == 11 && "omd_state_read"@.len() == 14);
    assert("apply_patch"@.len() == 11 && "read_file"@.len() == 9);
    assert("apply_patch"@.len() == 11 && "write_file"@.len() == 10);
}

/// `write_file` is allowed only in the solo executor's execute phase and
/// in the strategist's plan phase.
pub proof fn lemma_write_file_phases(p: OmdPhase)
    ensures
        spec_tool_allowed(p, "write_file"@) <==> (p == OmdPhase::Tongtian(TongtianPhase::Execute) || p
            == OmdPhase::Fuxi(FuxiPhase::Plan)),
{
    reveal_strlit("agent_close");
    reveal_strlit("agent_eval");
    reveal_strlit("agent_open");
    reveal_strlit("apply_patch");
    reveal_strlit("diagnostics");
    reveal_strlit("edit_file");
    reveal_strlit("exec_shell");
    reveal_strlit("exec_shell_wait");
    reveal_strlit("file_search");
    reveal_strlit("git_blame");
    reveal_strlit("git_diff");
    reveal_strlit("git_log");
    reveal_strlit("git_show");
    reveal_strlit("git_status");
    reveal_strlit("grep_files");
    reveal_strlit("list_dir");
    reveal_strlit("omd_checkpoint");
    reveal_strlit("omd_delegate");
    reveal_strlit("omd_phase_complete");
    reveal_strlit("omd_state_read");
    reveal_strlit("read_file");
    reveal_strlit("write_file");
    assert("write_file"@.len() == 10 && "agent_close"@.len() == 11);
    assert("write_file"@[0] == 'w' && "agent_eval"@[0] == 'a');
    assert("write_file"@[0] == 'w' && "agent_open"@[0] == 'a');
    assert("write_file"@.len() == 10 && "apply_patch"@.len() == 11);
    assert("write_file"@.len() == 10 && "diagnostics"@.len() == 11);
    assert("write_file"@.len() == 10 && "edit_file"@.len() == 9);
    assert("write_file"@[0] == 'w' && "exec_shell"@[0] == 'e');
    assert("write_file"@.len() == 10 && "exec_shell_wait"@.len() == 15);
    assert("write_file"@.len() == 10 && "file_search"@.len() == 11);
    assert("write_file"@.len() == 10 && "git_blame"@.len() == 9);
    assert("write_file"@.len() == 10 && "git_diff"@.len() == 8);
    assert("write_file"@.len() == 10 && "git_log"@.len() == 7);
    assert("write_file"@.len() == 10 && "git_show"@.len() == 8);
    assert("write_file"@[0] == 'w' && "git_status"@[0] == 'g');
    assert("write_file"@[0] == 'w' && "grep_files"@[0] == 'g');
    assert("write_file"@.len() == 10 && "list_dir"@.len() == 8);
    assert("write_file"@.len() == 10 && "omd_checkpoint"@.len() == 14);
    assert("write_file"@.len() == 10 && "omd_delegate"@.len() == 12);
    assert("write_file"@.len() == 10 && "omd_phase_complete"@.len() == 18);
    assert("write_file"@.len() == 10 && "omd_state_read"@.len() == 14);
    assert("write_file"@.len() == 10 && "read_file"@.len() == 9);
    match p {
        OmdPhase::Fuxi(FuxiPhase::Plan) => { assert(spec_phase_tools(p)[4] == "write_file"@); },
        _ => {},
    }
}

/// The shell tier agrees with the allowlist: full exactly when every tool
/// is allowed, and some shell exactly when `exec_shell` is allowed.
pub proof fn lemma_shell_tier_matches_tools(p: OmdPhase)
    ensures
        (spec_shell_policy(p) == ShellPolicy::Full) <==> spec_allows_all(p),
        (spec_shell_policy(p) != ShellPolicy::NoShell) <==> spec_tool_allowed(p, "exec_shell"@),
{
    reveal_strlit("agent_close");
    reveal_strlit("agent_eval");
    reveal_strlit("agent_open");
    reveal_strlit("apply_patch");
    reveal_strlit("diagnostics");
    reveal_strlit("edit_file");
    reveal_strlit("exec_shell");
    reveal_strlit("exec_shell_wait");
    reveal_strlit("file_search");
    reveal_strlit("git_blame");
    reveal_strlit("git_diff");
    reveal_strlit("git_log");
    reveal_strlit("git_show");
    reveal_strlit("git_status");
    reveal_strlit("grep_files");
    reveal_strlit("list_dir");
    reveal_strlit("omd_checkpoint");
    reveal_strlit("omd_delegate");
    reveal_strlit("omd_phase_complete");
    reveal_strlit("omd_state_read");
    reveal_strlit("read_file");
    reveal_strlit("write_file");
    assert("exec_shell"@.len() == 10 && "agent_close"@.len() == 11);
    assert("exec_shell"@[0] == 'e' && "agent_eval"@[0] == 'a');
    assert("exec_shell"@[0] == 'e' && "agent_open"@[0] == 'a');
    assert("exec_shell"@.len() == 10 && "apply_patch"@.len() == 11);
    assert("exec_shell"@.len() == 10 && "diagnostics"@.len() == 11);
    assert("exec_shell"@.len() == 10 && "edit_file"@.len() == 9);
    assert("exec_shell"@.len() == 10 && "exec_shell_wait"@.len() == 15);
    assert("exec_shell"@.len() == 10 && "file_search"@.len() == 11);
    assert("exec_shell"@.len() == 10 && "git_blame"@.len() == 9);
    assert("exec_shell"@.len() == 10 && "git_diff"@.len() == 8);
    assert("exec_shell"@.len() == 10 && "git_log"@.len() == 7);
    assert("exec_shell"@.len() == 10 && "git_show"@.len() == 8);
    assert("exec_shell"@[0] == 'e' && "git_status"@[0] == 'g');
    assert("exec_shell"@[0] == 'e' && "grep_files"@[0] == 'g');
    assert("exec_shell"@.len() == 10 && "list_dir"@.len() == 8);
    assert("exec_shell"@.len() == 10 && "omd_checkpoint"@.len() == 14);
    assert("exec_shell"@.len() == 10 && "omd_delegate"@.len() == 12);
    assert("exec_shell"@.len() == 10 && "omd_phase_complete"@.len() == 18);
    assert("exec_shell"@.len() == 10 && "omd_state_read"@.len() == 14);
    assert("exec_shell"@.len() == 10 && "read_file"@.len() == 9);
    assert("exec_shell"@[0] == 'e' && "write_file"@[0] == 'w');
    match p {
        OmdPhase::Tongtian(TongtianPhase::Explore) => { assert(spec_phase_tools(p)[10] == "exec_shell"@); },
        OmdPhase::Tongtian(TongtianPhase::Verify) => { assert(spec_phase_tools(p)[8] == "exec_shell"@); },
        OmdPhase::Pangu(PanguPhase::Verify) => { assert(spec_phase_tools(p)[4] == "exec_shell"@); },
        _ => {},
    }
}

/// The documented per-phase tool allowlists (Tongtian's execute phase
/// allows every tool and lists none).
pub proof fn lemma_phase_tools_table()
    ensures
        spec_phase_tools(OmdPhase::Tongtian(TongtianPhase::Explore)) == seq!["read_file"@, "grep_files"@, "file_search"@, "list_dir"@, "git_status"@, "git_diff"@, "git_log"@, "git_show"@, "git_blame"@, "diagnostics"@, "exec_shell"@, "exec_shell_wait"@, "agent_open"@, "omd_delegate"@, "omd_phase_complete"@, "omd_checkpoint"@, "omd_state_read"@],
        spec_phase_tools(OmdPhase::Tongtian(TongtianPhase::Execute)) == Seq::<Seq<char>>::empty(),
        spec_phase_tools(OmdPhase::Tongtian(TongtianPhase::Verify)) == seq!["read_file"@, "grep_files"@, "file_search"@, "list_dir"@, "git_status"@, "git_diff"@, "git_log"@, "git_show"@, "exec_shell"@, "exec_shell_wait"@, "omd_phase_complete"@, "omd_checkpoint"@, "omd_state_read"@],
        spec_phase_tools(OmdPhase::Tongtian(TongtianPhase::Done)) == seq!["omd_phase_complete"@, "omd_checkpoint"@, "omd_state_read"@],
        spec_phase_tools(OmdPhase::Fuxi(FuxiPhase::Interview)) == seq!["read_file"@, "grep_files"@, "file_search"@, "list_dir"@, "omd_phase_complete"@, "omd_state_read"@],
        spec_phase_tools(OmdPhase::Fuxi(FuxiPhase::Explore)) == seq!["read_file"@, "grep_files"@, "file_search"@, "list_dir"@, "git_log"@, "git_diff"@, "git_show"@, "git_blame"@, "agent_open"@, "omd_delegate"@, "omd_phase_complete"@, "omd_state_read"@],
        spec_phase_tools(OmdPhase::Fuxi(FuxiPhase::Architect)) == seq!["read_file"@, "grep_files"@, "file_search"@, "list_dir"@, "git_log"@, "git_diff"@, "agent_open"@, "omd_delegate"@, "omd_phase_complete"@, "omd_checkpoint"@, "omd_state_read"@],
        spec_phase_tools(OmdPhase::Fuxi(FuxiPhase::Plan)) == seq!["read_file"@, "grep_files"@, "file_search"@, "list_dir"@, "write_file"@, "omd_phase_complete"@, "omd_state_read"@],
        spec_phase_tools(OmdPhase::Fuxi(FuxiPhase::Done)) == seq!["omd_phase_complete"@, "omd_checkpoint"@, "omd_state_read"@],
        spec_phase_tools(OmdPhase::Pangu(PanguPhase::LoadPlan)) == seq!["read_file"@, "grep_files"@, "file_search"@, "list_dir"@, "omd_phase_complete"@, "omd_state_read"@],
        spec_phase_tools(OmdPhase::Pangu(PanguPhase::Decompose)) == seq!["read_file"@, "grep_files"@, "file_search"@, "list_dir"@, "omd_phase_complete"@, "omd_checkpoint"@, "omd_state_read"@],
        spec_phase_tools(OmdPhase::Pangu(PanguPhase::Delegate)) == seq!["read_file"@, "grep_files"@, "file_search"@, "list_dir"@, "omd_delegate"@, "agent_eval"@, "agent_close"@, "omd_phase_complete"@, "omd_checkpoint"@, "omd_state_read"@],
        spec_phase_tools(OmdPhase::Pangu(PanguPhase::Verify)) == seq!["read_file"@, "grep_files"@, "file_search"@, "list_dir"@, "exec_shell"@, "exec_shell_wait"@, "omd_delegate"@, "agent_eval"@, "agent_close"@, "omd_phase_complete"@, "omd_checkpoint"@, "omd_state_read"@],
        spec_phase_tools(OmdPhase::Pangu(PanguPhase::Done)) == seq!["omd_phase_complete"@, "omd_checkpoint"@, "omd_state_read"@],
        spec_phase_tools(OmdPhase::Hongjun(HongjunPhase::Intake)) == seq!["read_file"@, "grep_files"@, "file_search"@, "list_dir"@, "omd_phase_complete"@, "omd_state_read"@],
        spec_phase_tools(OmdPhase::Hongjun(HongjunPhase::Route)) == seq!["read_file"@, "omd_phase_complete"@, "omd_state_read"@],
        spec_phase_tools(OmdPhase::Hongjun(HongjunPhase::Done)) == seq!["omd_phase_complete"@, "omd_checkpoint"@, "omd_state_read"@],
{
}

/// Every phase that still has work to do lets the agent read files: only
/// a finished workflow's phase refuses `read_file`.
pub proof fn lemma_working_phases_read(p: OmdPhase)
    ensures
        spec_tool_allowed(p, "read_file"@) <==> phase_name(p) != "Done"@,
{
    reveal_strlit("Done");
    reveal_strlit("Explore");
    reveal_strlit("Execute");
    reveal_strlit("Verify");
    reveal_strlit("Interview");
    reveal_strlit("Architect");
    reveal_strlit("Plan");
    reveal_strlit("LoadPlan");
    reveal_strlit("Decompose");
    reveal_strlit("Delegate");
    reveal_strlit("Intake");
    reveal_strlit("Route");
    reveal_strlit("read_file");
    reveal_strlit("omd_phase_complete");
    reveal_strlit("omd_checkpoint");
    reveal_strlit("omd_state_read");
    if phase_name(p) != "Done"@ && !spec_allows_all(p) {
        assert(spec_phase_tools(p)[0] == "read_file"@);
    }
    if phase_name(p) == "Done"@ {
        assert("Done"@.len() == 4 && "Explore"@.len() == 7 && "Execute"@.len() == 7 && "Verify"@.len() == 6);
        assert("Interview"@.len() == 9 && "Architect"@.len() == 9 && "Plan"@.len() == 4 && "LoadPlan"@.len() == 8);
        assert("Decompose"@.len() == 9 && "Delegate"@.len() == 8 && "Intake"@.len() == 6 && "Route"@.len() == 5);
        assert("Plan"@[0] != "Done"@[0]);
        match p {
            OmdPhase::Tongtian(TongtianPhase::Done) | OmdPhase::Fuxi(FuxiPhase::Done) | OmdPhase::Pangu(
                PanguPhase::Done,
            ) | OmdPhase::Hongjun(HongjunPhase::Done) => {},
            _ => { assert(false); },
        }
        assert(spec_phase_tools(p) == seq!["omd_phase_complete"@, "omd_checkpoint"@, "omd_state_read"@]);
        assert("omd_phase_complete"@.len() != "read_file"@.len());
        assert("omd_checkpoint"@.len() != "read_file"@.len());
        assert("omd_state_read"@.len() != "read_file"@.len());
    }
}

} // verus!
