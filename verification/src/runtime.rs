//! The runtime of an active session: phase transitions with their guards,
//! task updates, checkpoints and state reads. What must reach the disk is
//! queued as store effects, in the order the session log needs them, for
//! the caller to perform.
use vstd::prelude::*;
use crate::fsm::{
    msg_not_a_phase, spec_all_phase_names, spec_resolve, spec_transition, spec_valid_next, OmdFsm,
};
use crate::state::{now_rfc3339, recomputed, OmdSessionState, OmdStateStore};
use crate::tasks::{
    after_status_change, attempts_would_overflow, copy_graph, copy_task, count_status, find_task,
    lemma_find_task_range, lemma_find_task_same, same_task, same_tasks, spec_report_status,
    status_name, Task, TaskGraph, TaskStatus,
};
use crate::text::{
    append_str, append_string, debug_list, decimal, push_decimal, str_eq, str_views, string_from,
};
use crate::types::{agent_display, agent_name, phase_name, OmdAgent, OmdPhase};
use crate::evidence::{
    evidence_type_names, first_evidence_error, first_item_error, item_type_names, lemma_skip_stops_scan,
    EvidenceClaim, EvidenceItem,
};
use crate::transition_guards::{
    check_evidence_requirements, evidence_type_name, spec_check_evidence, RequiredEvidence,
};

verus! {

/// An event for the session's event log (its time stamp is added when it
/// is written).
#[derive(Debug)]
pub enum RuntimeEvent {
    SessionStart { agent: String, phase: String },
    /// A phase transition; a user-initiated one carries an explicit skip
    /// as its evidence, a model-initiated one the evidence the model gave.
    PhaseTransition { from: String, to: String, reason: String, user_initiated: bool },
    FuxiHandoff { plan_path: String, message: String },
    /// A task status change; the first change away from pending carries
    /// the task as it was before the change, so replay can rebuild it.
    TaskUpdate { task_id: String, status: String, done: usize, total: usize, task_definition: Option<Task> },
    Checkpoint { phase: String, summary: String },
    /// A task handed to a worker.
    Delegate {
        agent: String,
        task: String,
        task_id: Option<String>,
        category: Option<String>,
        write_scope: Vec<String>,
        context: Vec<String>,
        session_name: String,
    },
}

/// What must reach the disk, in order.
#[derive(Debug)]
pub enum StoreEffect {
    /// Append this event to the session's event log.
    AppendEvent(RuntimeEvent),
    /// Write the session state snapshot (`current.json`).
    WriteState,
}

/// How a phase transition request was answered.
#[derive(Debug)]
pub enum PhaseReply {
    /// The session moved to `phase`; a strategist that finished planning
    /// hands over `plan_path`.
    Moved { phase: String, message: String, user_initiated: bool, plan_path: Option<String> },
    /// The session stayed; `valid_next_phases` is given when the state
    /// machine refused the target.
    Refused { error: String, current_phase: String, valid_next_phases: Option<Vec<&'static str>> },
}

/// How a task update was answered.
#[derive(Debug)]
pub enum TaskUpdateReply {
    /// The update was applied; a task that failed its last attempt comes
    /// with a routing suggestion.
    Updated { progress: String, routing_suggestion: Option<&'static str>, routing_reason: Option<String> },
    Rejected { error: String },
}

/// What `omd_state_read` reports.
#[derive(Debug)]
pub struct StateReport {
    pub agent: &'static str,
    pub phase: &'static str,
    pub valid_next_phases: Vec<&'static str>,
    pub session_id: String,
    pub started_at: String,
    pub task_progress: Option<String>,
    pub task_graph: Option<TaskGraph>,
}

// ───────────────────────────── specification ─────────────────────────────

/// `"done/total"`.
pub open spec fn progress_text(done: nat, total: nat) -> Seq<char> {
    decimal(done) + "/"@ + decimal(total)
}

/// Number of active tasks.
pub open spec fn active_count(g: Option<TaskGraph>) -> nat {
    match g {
        Some(g) => count_status(g.tasks@, TaskStatus::Active),
        None => 0,
    }
}

/// The structural guard: leaving delegation for verification while tasks
/// are still active is refused.
pub open spec fn verify_blocked(current: OmdPhase, target: Seq<char>, g: Option<TaskGraph>) -> bool {
    phase_name(current) == "Delegate"@ && target == "Verify"@ && active_count(g) > 0
}

/// The message of the structural guard.
pub open spec fn msg_verify_blocked(n: nat) -> Seq<char> {
    "Cannot enter Verify: "@ + decimal(n)
        + " task(s) still Active. All delegated tasks must return before verification."@
}

/// The message of a transition the model asked for.
pub open spec fn msg_moved(from: Seq<char>, to: Seq<char>) -> Seq<char> {
    "Transitioned from "@ + from + " to "@ + to + ". Tool availability updated."@
}

/// The message of a transition the user forced.
pub open spec fn msg_user_moved(from: Seq<char>, to: Seq<char>) -> Seq<char> {
    "User forced transition from "@ + from + " to "@ + to + ". Tool availability updated."@
}

/// The plan a strategist hands over: the first evidence path, else the
/// default plan.
pub open spec fn handoff_plan_path(paths: Seq<Option<String>>) -> Seq<char>
    decreases paths.len(),
{
    if paths.len() == 0 {
        ".omd/plans/latest.md"@
    } else {
        match paths[0] {
            Some(p) => p@,
            None => handoff_plan_path(paths.drop_first()),
        }
    }
}

/// `e` appends the transition event `from -> to`.
pub open spec fn is_transition_event(e: StoreEffect, from: Seq<char>, to: Seq<char>, reason: Seq<char>, user: bool) -> bool {
    match e {
        StoreEffect::AppendEvent(RuntimeEvent::PhaseTransition { from: f, to: t, reason: r, user_initiated: u }) => f@
            == from && t@ == to && r@ == reason && u == user,
        _ => false,
    }
}

/// `e` appends the handoff event for `plan` with `message`.
pub open spec fn is_handoff_event(e: StoreEffect, plan: Seq<char>, message: Seq<char>) -> bool {
    match e {
        StoreEffect::AppendEvent(RuntimeEvent::FuxiHandoff { plan_path, message: m }) => plan_path@ == plan
            && m@ == message,
        _ => false,
    }
}

/// The effects of a transition from `from` to `to`: the event first (the
/// log is the source of truth), then the snapshot, then the handoff
/// event when the strategist finished planning.
pub open spec fn transition_effects(
    effects: Seq<StoreEffect>,
    from: Seq<char>,
    to: Seq<char>,
    reason: Seq<char>,
    user: bool,
    handoff: Option<(Seq<char>, Seq<char>)>,
) -> bool {
    &&& effects.len() == if handoff is Some { 3int } else { 2int }
    &&& is_transition_event(effects[0], from, to, reason, user)
    &&& effects[1] is WriteState
    &&& handoff matches Some(h) ==> is_handoff_event(effects[2], h.0, h.1)
}

/// `b` is `a` with only the effects queue possibly changed.
pub open spec fn same_but_effects(a: OmdRuntimeState, b: OmdRuntimeState) -> bool {
    &&& b.fsm.spec_agent() == a.fsm.spec_agent()
    &&& b.fsm.spec_phase() == a.fsm.spec_phase()
    &&& b.session_state == a.session_state
    &&& b.store == a.store
    &&& graph_view(b.task_graph) == graph_view(a.task_graph)
    &&& b.audit_log == a.audit_log
}

/// The tasks of an optional graph.
pub open spec fn graph_view(g: Option<TaskGraph>) -> Option<Seq<Task>> {
    match g {
        Some(g) => Some(g.tasks@),
        None => None,
    }
}

/// The effects queued after the ones of `a`.
pub open spec fn new_effects(a: OmdRuntimeState, b: OmdRuntimeState) -> Seq<StoreEffect> {
    b.effects@.subrange(a.effects@.len() as int, b.effects@.len() as int)
}

/// `b` keeps the effects of `a` and queues more after them.
pub open spec fn effects_extended(a: OmdRuntimeState, b: OmdRuntimeState) -> bool {
    a.effects@.len() <= b.effects@.len() && b.effects@.subrange(0, a.effects@.len() as int) == a.effects@
}

/// The handoff message of a transition the model asked for.
pub open spec fn handoff_message(user: bool) -> Seq<char> {
    if user {
        "Plan ready. Use /omd-execute to start Pangu."@
    } else {
        "Plan ready. Use /omd-execute to start Pangu, or Tab to choose agent."@
    }
}

/// How a request to move to `next` is answered (`user` when the user
/// forced it, with `paths` the evidence paths the model gave), from state
/// `a` to state `b` with reply `r`: a move from delegation to verification
/// with active tasks is refused; a target the state machine refuses is
/// refused with the valid next phases; otherwise the machine and the
/// session move, the audit log is cleared, and the transition event, the
/// snapshot and (when the strategist finished planning) the handoff event
/// are queued.
pub open spec fn spec_phase_complete(
    a: OmdRuntimeState,
    next: Seq<char>,
    reason: Seq<char>,
    paths: Seq<Option<String>>,
    user: bool,
    b: OmdRuntimeState,
    r: PhaseReply,
) -> bool {
    let from = phase_name(a.fsm.spec_phase());
    if verify_blocked(a.fsm.spec_phase(), next, a.task_graph) {
        &&& same_but_effects(a, b)
        &&& b.effects@ == a.effects@
        &&& r matches PhaseReply::Refused { error, current_phase, valid_next_phases }
        &&& error@ == msg_verify_blocked(active_count(a.task_graph))
        &&& current_phase@ == from
        &&& valid_next_phases is None
    } else {
        match spec_transition(a.fsm.spec_phase(), next) {
            Err(m) => {
                &&& same_but_effects(a, b)
                &&& b.effects@ == a.effects@
                &&& r matches PhaseReply::Refused { error, current_phase, valid_next_phases }
                &&& error@ == m
                &&& current_phase@ == from
                &&& valid_next_phases matches Some(v) && str_views(v@) == spec_valid_next(a.fsm.spec_phase())
            },
            Ok(p) => {
                let to = phase_name(p);
                let plan = if user { ".omd/plans/latest.md"@ } else { handoff_plan_path(paths) };
                let handoff = a.fsm.spec_agent() == OmdAgent::Fuxi && to == "Done"@;
                &&& b.fsm.spec_phase() == p
                &&& b.fsm.spec_agent() == a.fsm.spec_agent()
                &&& b.session_state.phase@ == to
                &&& b.session_state.agent == a.session_state.agent
                &&& b.session_state.session_id == a.session_state.session_id
                &&& b.session_state.started_at == a.session_state.started_at
                &&& b.session_state.task_graph == a.session_state.task_graph
                &&& b.store == a.store
                &&& b.task_graph == a.task_graph
                &&& b.audit_log@.len() == 0
                &&& effects_extended(a, b)
                &&& transition_effects(
                    new_effects(a, b),
                    from,
                    to,
                    if user { "User-initiated phase complete"@ } else { reason },
                    user,
                    if handoff { Some((plan, handoff_message(user))) } else { None },
                )
                &&& r matches PhaseReply::Moved { phase, message, user_initiated, plan_path }
                &&& phase@ == to
                &&& message@ == if user { msg_user_moved(from, to) } else { msg_moved(from, to) }
                &&& user_initiated == user
                &&& plan_path matches Some(pp) ==> pp@ == plan
                &&& (plan_path is Some <==> (handoff && !user))
            },
        }
    }
}

/// The routing reason for a task that failed its last attempt.
pub open spec fn msg_routing(task_id: Seq<char>, max_attempts: u32) -> Seq<char> {
    "Task '"@ + task_id + "' permanently failed after "@ + decimal(max_attempts as nat)
        + " attempts. Consider delegating to Zhurong for debugging."@
}

/// `t` is `u` with the worker's results recorded: its changed files
/// replaced, and the evidence item appended when there is one.
pub open spec fn results_recorded(t: Task, u: Task, changed_files: Vec<String>, evidence: Option<String>) -> bool {
    &&& t.id == u.id
    &&& t.description == u.description
    &&& t.status == u.status
    &&& t.owner == u.owner
    &&& t.depends_on == u.depends_on
    &&& t.attempts == u.attempts
    &&& t.max_attempts == u.max_attempts
    &&& t.failure_reason == u.failure_reason
    &&& t.changed_files == changed_files
    &&& t.evidence@ == match evidence {
        Some(e) => u.evidence@.push(e),
        None => u.evidence@,
    }
    &&& t.write_scope == u.write_scope
    &&& t.category == u.category
}

/// How `omd_task_update` is answered, from state `a` to state `b` with
/// reply `r`: without a task graph, or when the status change is refused,
/// nothing changes; otherwise the report is applied as `report_status`
/// applies it (a pending task reported done is accepted), the worker's
/// results are recorded on the task, the update event (carrying the task as it was, unless the new status is pending)
/// and the snapshot are queued, and a task that failed its last attempt
/// is routed to the debugger.
pub open spec fn spec_task_update(
    a: OmdRuntimeState,
    task_id: Seq<char>,
    status: TaskStatus,
    changed_files: Vec<String>,
    evidence: Option<String>,
    b: OmdRuntimeState,
    r: TaskUpdateReply,
) -> bool {
    match a.task_graph {
        None => {
            &&& same_but_effects(a, b)
            &&& b.effects@ == a.effects@
            &&& r matches TaskUpdateReply::Rejected { error }
            &&& error@ == "No task graph initialized"@
        },
        Some(g) => match spec_report_status(g.tasks@, task_id, status) {
            Err(m) => {
                &&& same_but_effects(a, b)
                &&& b.effects@ == a.effects@
                &&& r matches TaskUpdateReply::Rejected { error }
                &&& error@ == m
            },
            Ok(i) => {
                let changed = recomputed(g.tasks@.update(i, after_status_change(g.tasks@[i], status)));
                &&& b.task_graph matches Some(h)
                &&& h.tasks@.len() == changed.len()
                &&& forall|j: int| 0 <= j < changed.len() && j != i ==> #[trigger] h.tasks@[j] == changed[j]
                &&& results_recorded(h.tasks@[i], changed[i], changed_files, evidence)
                &&& b.fsm.spec_agent() == a.fsm.spec_agent()
                &&& b.fsm.spec_phase() == a.fsm.spec_phase()
                &&& b.store == a.store
                &&& b.audit_log == a.audit_log
                &&& b.session_state.phase == a.session_state.phase
                &&& b.session_state.session_id == a.session_state.session_id
                &&& (b.session_state.task_graph matches Some(sg) && same_tasks(sg.tasks@, h.tasks@))
                &&& effects_extended(a, b)
                &&& new_effects(a, b).len() == 2
                &&& new_effects(a, b)[0] matches StoreEffect::AppendEvent(
                    RuntimeEvent::TaskUpdate { task_id: tid, status: sn, done, total, task_definition },
                )
                &&& tid@ == task_id
                &&& sn@ == status_name(status)
                &&& done == count_status(h.tasks@, TaskStatus::Done)
                &&& total == h.tasks@.len()
                &&& (task_definition matches Some(d) ==> same_task(d, g.tasks@[i]))
                &&& (task_definition is Some <==> status != TaskStatus::Pending)
                &&& new_effects(a, b)[1] is WriteState
                &&& r matches TaskUpdateReply::Updated { progress, routing_suggestion, routing_reason }
                &&& progress@ == progress_text(done as nat, total as nat)
                &&& if status == TaskStatus::Failed && h.tasks@[i].attempts >= h.tasks@[i].max_attempts {
                    &&& routing_suggestion matches Some(w) && w@ == "zhurong"@
                    &&& routing_reason matches Some(m) && m@ == msg_routing(task_id, h.tasks@[i].max_attempts)
                } else {
                    routing_suggestion is None && routing_reason is None
                }
            },
        },
    }
}

/// The agent a name stands for.
pub open spec fn agent_from_name(n: Seq<char>) -> Option<OmdAgent> {
    if n == "Tongtian"@ {
        Some(OmdAgent::Tongtian)
    } else if n == "Fuxi"@ {
        Some(OmdAgent::Fuxi)
    } else if n == "Pangu"@ {
        Some(OmdAgent::Pangu)
    } else if n == "Hongjun"@ {
        Some(OmdAgent::Hongjun)
    } else {
        None
    }
}

/// The phase a resumed session continues in: the phase the event log
/// rebuilt, else the target of the log's last transition, else the
/// snapshot's phase (the log is the source of truth).
pub open spec fn resumed_phase(
    snapshot: OmdSessionState,
    rebuilt: Option<OmdSessionState>,
    last_transition: Option<String>,
) -> Seq<char> {
    match rebuilt {
        Some(s) => s.phase@,
        None => match last_transition {
            Some(p) => p@,
            None => snapshot.phase@,
        },
    }
}

/// The task graph a resumed session continues with: the snapshot's, else
/// the one the event log rebuilt.
pub open spec fn resumed_tasks(snapshot: OmdSessionState, rebuilt: Option<OmdSessionState>) -> Option<Seq<Task>> {
    match snapshot.task_graph {
        Some(g) => Some(g.tasks@),
        None => match rebuilt {
            Some(s) => graph_view(s.task_graph),
            None => None,
        },
    }
}

/// Equal optional task lists, up to copying.
pub open spec fn same_opt_tasks(a: Option<Seq<Task>>, b: Option<Seq<Task>>) -> bool {
    match (a, b) {
        (Some(x), Some(y)) => same_tasks(x, y),
        (None, None) => true,
        _ => false,
    }
}

/// The type names of required evidence kinds.
pub open spec fn evidence_names(req: Seq<RequiredEvidence>) -> Seq<Seq<char>> {
    req.map_values(|r: RequiredEvidence| evidence_type_name(r))
}

/// The message for a transition that lacks required evidence.
pub open spec fn msg_missing_evidence(p: OmdPhase, next: Seq<char>, missing: Seq<RequiredEvidence>) -> Seq<char> {
    "Transition from '"@ + phase_name(p) + "' to '"@ + next + "' requires evidence of type(s): "@
        + debug_list(evidence_names(missing)) + ". Provide the required evidence or use ExplicitSkip with a reason."@
}

/// Why the evidence of a request to move to `next` does not let it
/// through, if it does not: the first item that fails verification, else
/// the evidence kinds the transition requires and the items lack.
pub open spec fn spec_evidence_gate(a: OmdRuntimeState, next: Seq<char>, items: Seq<EvidenceItem>) -> Option<Seq<char>> {
    match first_item_error(items, a.audit_log@, 0) {
        Some(m) => Some(m),
        None => match spec_check_evidence(a.fsm.spec_phase(), next, item_type_names(items)) {
            Err(missing) => Some(msg_missing_evidence(a.fsm.spec_phase(), next, missing)),
            Ok(_) => None,
        },
    }
}

/// The runtime state of an active session.
pub struct OmdRuntimeState {
    pub fsm: OmdFsm,
    pub session_state: OmdSessionState,
    pub store: OmdStateStore,
    pub task_graph: Option<TaskGraph>,
    /// Shell commands run in the current phase, with exit codes (for
    /// evidence verification); cleared on each successful transition.
    pub audit_log: Vec<(String, i32)>,
    /// Store effects queued and not yet performed, oldest first.
    pub effects: Vec<StoreEffect>,
}

/// A fresh session id (`uuid::Uuid::new_v4`, as text). Nothing is
/// claimed of it: it is random.
#[verifier::external_body]
fn new_session_id() -> String {
    uuid::Uuid::new_v4().to_string()
}

fn count_active(g: &Option<TaskGraph>) -> (r: usize)
    ensures
        r == active_count(*g),
{
    match g {
        Some(g) => {
            let mut n: usize = 0;
            let mut k: usize = 0;
            while k < g.tasks.len()
                invariant
                    k <= g.tasks.len(),
                    n <= k,
                    n == count_status(g.tasks@.subrange(0, k as int), TaskStatus::Active),
                decreases g.tasks.len() - k,
            {
                assert(g.tasks@.subrange(0, k + 1).drop_last() =~= g.tasks@.subrange(0, k as int));
                match g.tasks[k].status {
                    TaskStatus::Active => {
                        n += 1;
                    },
                    _ => {},
                }
                k += 1;
            }
            assert(g.tasks@.subrange(0, g.tasks@.len() as int) =~= g.tasks@);
            n
        },
        None => 0,
    }
}

fn first_path(paths: &[Option<String>]) -> (r: String)
    ensures
        r@ == handoff_plan_path(paths@),
{
    let mut k: usize = 0;
    assert(paths@.subrange(0, paths@.len() as int) =~= paths@);
    while k < paths.len()
        invariant
            k <= paths.len(),
            handoff_plan_path(paths@) == handoff_plan_path(paths@.subrange(k as int, paths@.len() as int)),
        decreases paths.len() - k,
    {
        proof {
            let t = paths@.subrange(k as int, paths@.len() as int);
            assert(t.drop_first() =~= paths@.subrange(k + 1, paths@.len() as int));
            assert(t[0] == paths@[k as int]);
        }
        match &paths[k] {
            Some(p) => {
                return string_from(p.as_str());
            },
            None => {},
        }
        k += 1;
    }
    proof {
        assert(paths@.subrange(k as int, paths@.len() as int).len() == 0);
    }
    string_from(".omd/plans/latest.md")
}

fn verify_blocked_message(n: usize) -> (r: String)
    ensures
        r@ == msg_verify_blocked(n as nat),
{
    let mut m = string_from("Cannot enter Verify: ");
    push_decimal(&mut m, n as u64);
    append_str(&mut m, " task(s) still Active. All delegated tasks must return before verification.");
    m
}

fn moved_message(prefix: &str, from: &str, to: &str) -> (r: String)
    ensures
        r@ == prefix@ + from@ + " to "@ + to@ + ". Tool availability updated."@,
{
    let mut m = string_from(prefix);
    append_str(&mut m, from);
    append_str(&mut m, " to ");
    append_str(&mut m, to);
    append_str(&mut m, ". Tool availability updated.");
    m
}

impl OmdRuntimeState {
    /// Takes the queued store effects, oldest first.
    pub fn take_effects(&mut self) -> (r: Vec<StoreEffect>)
        ensures
            r@ == old(self).effects@,
            final(self).effects@.len() == 0,
            final(self).fsm == old(self).fsm,
            final(self).session_state == old(self).session_state,
            final(self).store == old(self).store,
            final(self).task_graph == old(self).task_graph,
            final(self).audit_log == old(self).audit_log,
    {
        let mut out: Vec<StoreEffect> = Vec::new();
        std::mem::swap(&mut out, &mut self.effects);
        out
    }

    /// A new session of `agent` in `workspace`: the machine in the agent's
    /// first phase, a fresh session id, no task graph, and the snapshot
    /// and the session start event queued. The session lock is the
    /// caller's to take first.
    pub fn new(agent: OmdAgent, workspace: &str) -> (r: Self)
        ensures
            r.fsm.spec_agent() == agent,
            r.fsm.spec_phase() == crate::fsm::spec_initial_phase(agent),
            r.session_state.agent@ == agent_name(agent),
            r.session_state.phase@ == phase_name(crate::fsm::spec_initial_phase(agent)),
            r.session_state.task_graph is None,
            r.store.spec_workspace() == workspace@,
            r.task_graph is None,
            r.audit_log@.len() == 0,
            r.effects@.len() == 2,
            r.effects@[0] is WriteState,
            (r.effects@[1] matches StoreEffect::AppendEvent(
                RuntimeEvent::SessionStart { agent: a, phase: p },
            ) && a@ == agent_name(agent) && p@ == phase_name(crate::fsm::spec_initial_phase(agent))),
    {
        let session_id = new_session_id();
        let fsm = OmdFsm::new(agent);
        let session_state = OmdSessionState::new(agent, session_id);
        let store = OmdStateStore::new(workspace);
        let mut effects: Vec<StoreEffect> = Vec::new();
        effects.push(StoreEffect::WriteState);
        effects.push(
            StoreEffect::AppendEvent(
                RuntimeEvent::SessionStart {
                    agent: string_from(agent_display(agent)),
                    phase: string_from(session_state.phase.as_str()),
                },
            ),
        );
        OmdRuntimeState { fsm, session_state, store, task_graph: None, audit_log: Vec::new(), effects }
    }

    /// Records a shell command run in this phase, for evidence verification.
    pub fn push_audit_entry(&mut self, command: String, exit_code: i32)
        ensures
            final(self).audit_log@ == old(self).audit_log@.push((command, exit_code)),
            final(self).fsm == old(self).fsm,
            final(self).session_state == old(self).session_state,
            final(self).task_graph == old(self).task_graph,
            final(self).effects@ == old(self).effects@,
    {
        self.audit_log.push((command, exit_code));
    }

    /// Copies the task graph into the session state and queues the snapshot.
    fn persist_state(&mut self)
        ensures
            match (final(self).session_state.task_graph, old(self).task_graph) {
                (Some(a), Some(b)) => same_tasks(a.tasks@, b.tasks@),
                (None, None) => true,
                _ => false,
            },
            final(self).session_state.phase == old(self).session_state.phase,
            final(self).session_state.agent == old(self).session_state.agent,
            final(self).session_state.session_id == old(self).session_state.session_id,
            final(self).effects@ == old(self).effects@.push(StoreEffect::WriteState),
            final(self).fsm == old(self).fsm,
            final(self).task_graph == old(self).task_graph,
            final(self).audit_log == old(self).audit_log,
            final(self).store == old(self).store,
    {
        self.session_state.task_graph = match &self.task_graph {
            Some(g) => Some(copy_graph(g)),
            None => None,
        };
        self.effects.push(StoreEffect::WriteState);
    }

    /// Builds the task graph from `tasks`: refused (and nothing changes)
    /// when the graph does not validate; otherwise blocked statuses are
    /// assigned, the graph is stored and the snapshot is queued.
    pub fn init_task_graph(&mut self, tasks: Vec<Task>) -> (r: Result<(), String>)
        ensures
            match crate::tasks::spec_validate(tasks@) {
                Err(m) => r matches Err(e) && e@ == m && final(self).task_graph == old(self).task_graph
                    && final(self).effects@ == old(self).effects@,
                Ok(_) => r is Ok && (final(self).task_graph matches Some(g)
                    && crate::tasks::is_recomputed(tasks@, g.tasks@)) && final(self).effects@
                    == old(self).effects@.push(StoreEffect::WriteState),
            },
            final(self).fsm == old(self).fsm,
            final(self).audit_log == old(self).audit_log,
    {
        let mut graph = TaskGraph { tasks };
        match graph.validate() {
            Err(e) => {
                return Err(e);
            },
            Ok(()) => {},
        }
        graph.recompute_blocked_status();
        self.task_graph = Some(graph);
        self.persist_state();
        Ok(())
    }

    fn phase_complete(
        &mut self,
        next_phase: &str,
        reason: &str,
        evidence_paths: &[Option<String>],
        user: bool,
    ) -> (r: PhaseReply)
        ensures
            spec_phase_complete(*old(self), next_phase@, reason@, evidence_paths@, user, *final(self), r),
    {
        let from = string_from(self.fsm.current_phase_name());
        // Structural guard: delegated tasks must all return before verification.
        if str_eq(self.fsm.current_phase_name(), "Delegate") && str_eq(next_phase, "Verify") {
            let n = count_active(&self.task_graph);
            if n > 0 {
                return PhaseReply::Refused {
                    error: verify_blocked_message(n),
                    current_phase: from,
                    valid_next_phases: None,
                };
            }
        }
        let ghost a = *self;
        match self.fsm.try_transition(next_phase) {
            Err(e) => PhaseReply::Refused {
                error: e,
                current_phase: from,
                valid_next_phases: Some(self.fsm.valid_next_phases()),
            },
            Ok(()) => {
                let to = self.fsm.current_phase_name();
                self.session_state.update_phase(to);
                let reason_text = if user {
                    string_from("User-initiated phase complete")
                } else {
                    string_from(reason)
                };
                self.effects.push(
                    StoreEffect::AppendEvent(
                        RuntimeEvent::PhaseTransition {
                            from: string_from(from.as_str()),
                            to: string_from(to),
                            reason: reason_text,
                            user_initiated: user,
                        },
                    ),
                );
                self.effects.push(StoreEffect::WriteState);
                let handoff = match self.fsm.agent() {
                    OmdAgent::Fuxi => str_eq(to, "Done"),
                    _ => false,
                };
                let mut plan_path: Option<String> = None;
                if handoff {
                    let plan = if user {
                        string_from(".omd/plans/latest.md")
                    } else {
                        first_path(evidence_paths)
                    };
                    let message = if user {
                        string_from("Plan ready. Use /omd-execute to start Pangu.")
                    } else {
                        string_from("Plan ready. Use /omd-execute to start Pangu, or Tab to choose agent.")
                    };
                    if !user {
                        plan_path = Some(string_from(plan.as_str()));
                    }
                    self.effects.push(
                        StoreEffect::AppendEvent(RuntimeEvent::FuxiHandoff { plan_path: plan, message }),
                    );
                }
                // Evidence is phase-scoped.
                self.audit_log.clear();
                let message = if user {
                    moved_message("User forced transition from ", from.as_str(), to)
                } else {
                    moved_message("Transitioned from ", from.as_str(), to)
                };
                proof {
                    let b = *self;
                    assert(new_effects(a, b) =~= b.effects@.subrange(a.effects@.len() as int, b.effects@.len() as int));
                    assert(b.effects@.subrange(0, a.effects@.len() as int) =~= a.effects@);
                }
                PhaseReply::Moved { phase: string_from(to), message, user_initiated: user, plan_path }
            },
        }
    }

    /// Handles `omd_phase_complete`: the model asks to move to
    /// `next_phase`, for `reason`; `evidence_paths` holds the `path` of
    /// each evidence item that has one (a strategist that finishes
    /// planning hands over the first). See `spec_phase_complete`.
    pub fn handle_phase_complete(
        &mut self,
        next_phase: &str,
        reason: &str,
        evidence_paths: &[Option<String>],
    ) -> (r: PhaseReply)
        ensures
            spec_phase_complete(*old(self), next_phase@, reason@, evidence_paths@, false, *final(self), r),
    {
        self.phase_complete(next_phase, reason, evidence_paths, false)
    }

    /// Handles `/omd-phase-complete`: the user forces a move to
    /// `next_phase`. Evidence is not asked for, but the state machine and
    /// the structural guard still apply. See `spec_phase_complete`.
    pub fn handle_user_phase_complete(&mut self, next_phase: &str) -> (r: PhaseReply)
        ensures
            spec_phase_complete(*old(self), next_phase@, "User-initiated phase complete"@, seq![], true, *final(self), r),
    {
        let no_paths: Vec<Option<String>> = Vec::new();
        self.phase_complete(next_phase, "User-initiated phase complete", no_paths.as_slice(), true)
    }

    /// Handles `omd_task_update`: sets the status of task `task_id` and
    /// records the worker's changed files and evidence (as JSON text). See
    /// `spec_task_update`. The attempt counter may not be pushed past
    /// `u32::MAX`.
    pub fn handle_task_update(
        &mut self,
        task_id: &str,
        status: TaskStatus,
        changed_files: Vec<String>,
        evidence: Option<String>,
    ) -> (r: TaskUpdateReply)
        requires
            match old(self).task_graph {
                Some(g) => !attempts_would_overflow(g.tasks@, task_id@, status),
                None => true,
            },
        ensures
            spec_task_update(*old(self), task_id@, status, changed_files, evidence, *final(self), r),
    {
        let ghost a = *self;
        let mut graph = match self.task_graph.take() {
            Some(g) => g,
            None => {
                return TaskUpdateReply::Rejected { error: string_from("No task graph initialized") };
            },
        };
        let ghost g0 = graph.tasks@;
        // The task as it was, for replay, unless it goes back to pending.
        let task_definition = match status {
            TaskStatus::Pending => None,
            _ => match graph.get(task_id) {
                Some(t) => Some(copy_task(t)),
                None => None,
            },
        };
        match graph.report_status(task_id, status) {
            Err(e) => {
                self.task_graph = Some(graph);
                return TaskUpdateReply::Rejected { error: e };
            },
            Ok(()) => {},
        }
        let ghost i = spec_report_status(g0, task_id@, status)->Ok_0;
        let ghost changed = recomputed(g0.update(i, after_status_change(g0[i], status)));
        proof {
            assert(spec_report_status(g0, task_id@, status) is Ok);
            assert(find_task(g0, task_id@) == Some(i));
            lemma_find_task_range(g0, task_id@, 0);
            assert(graph.tasks@ =~= changed);
            assert forall|j: int| 0 <= j < g0.len() implies #[trigger] g0[j].id == changed[j].id by {
                assert(g0.update(i, after_status_change(g0[i], status))[j].id == g0[j].id);
            }
            lemma_find_task_same(g0, changed, task_id@, 0);
        }
        match graph.get_mut(task_id) {
            Some(t) => {
                t.changed_files = changed_files;
                match evidence {
                    Some(ev) => {
                        t.evidence.push(ev);
                    },
                    None => {},
                }
            },
            None => {},
        }
        proof {
            assert(graph.tasks@.len() == changed.len());
            assert forall|j: int| 0 <= j < changed.len() implies #[trigger] changed[j].id == graph.tasks@[j].id by {}
            lemma_find_task_same(changed, graph.tasks@, task_id@, 0);
        }
        let (done, total) = graph.progress();
        let status_text = string_from(crate::tasks::status_text(status));
        self.effects.push(
            StoreEffect::AppendEvent(
                RuntimeEvent::TaskUpdate {
                    task_id: string_from(task_id),
                    status: status_text,
                    done,
                    total,
                    task_definition,
                },
            ),
        );
        let mut routing_suggestion: Option<&'static str> = None;
        let mut routing_reason: Option<String> = None;
        match status {
            TaskStatus::Failed => {
                match graph.get(task_id) {
                    Some(t) => {
                        if t.attempts >= t.max_attempts {
                            routing_suggestion = Some("zhurong");
                            let mut m = string_from("Task '");
                            append_str(&mut m, task_id);
                            append_str(&mut m, "' permanently failed after ");
                            push_decimal(&mut m, t.max_attempts as u64);
                            append_str(&mut m, " attempts. Consider delegating to Zhurong for debugging.");
                            routing_reason = Some(m);
                        }
                    },
                    None => {},
                }
            },
            _ => {},
        }
        self.task_graph = Some(graph);
        self.persist_state();
        let mut progress = string_from("");
        push_decimal(&mut progress, done as u64);
        append_str(&mut progress, "/");
        push_decimal(&mut progress, total as u64);
        proof {
            reveal_strlit("");
            let b = *self;
            assert(new_effects(a, b) =~= b.effects@.subrange(a.effects@.len() as int, b.effects@.len() as int));
            assert(b.effects@.subrange(0, a.effects@.len() as int) =~= a.effects@);
        }
        TaskUpdateReply::Updated { progress, routing_suggestion, routing_reason }
    }

    /// Handles `omd_checkpoint`: queues a checkpoint event for the current
    /// phase with `summary`.
    pub fn handle_checkpoint(&mut self, summary: &str)
        ensures
            same_but_effects(*old(self), *final(self)),
            final(self).effects@.len() == old(self).effects@.len() + 1,
            final(self).effects@.subrange(0, old(self).effects@.len() as int) == old(self).effects@,
            final(self).effects@.last() matches StoreEffect::AppendEvent(RuntimeEvent::Checkpoint { phase, summary: s })
                && phase@ == phase_name(old(self).fsm.spec_phase()) && s@ == summary@,
    {
        let phase = string_from(self.fsm.current_phase_name());
        self.effects.push(StoreEffect::AppendEvent(RuntimeEvent::Checkpoint { phase, summary: string_from(summary) }));
    }

    /// Handles `omd_state_read`: agent, phase, valid next phases, session
    /// id and start time, and the task graph with its progress.
    pub fn handle_state_read(&self) -> (r: StateReport)
        ensures
            r.agent@ == agent_name(self.fsm.spec_agent()),
            r.phase@ == phase_name(self.fsm.spec_phase()),
            str_views(r.valid_next_phases@) == spec_valid_next(self.fsm.spec_phase()),
            r.session_id@ == self.session_state.session_id@,
            r.started_at@ == self.session_state.started_at@,
            match self.task_graph {
                Some(g) => (r.task_progress matches Some(p) && p@ == progress_text(
                    count_status(g.tasks@, TaskStatus::Done),
                    g.tasks@.len(),
                )) && (r.task_graph matches Some(h) && same_tasks(h.tasks@, g.tasks@)),
                None => r.task_progress is None && r.task_graph is None,
            },
    {
        let (task_progress, task_graph) = match &self.task_graph {
            Some(g) => {
                let (done, total) = g.progress();
                let mut p = string_from("");
                push_decimal(&mut p, done as u64);
                append_str(&mut p, "/");
                push_decimal(&mut p, total as u64);
                proof {
                    reveal_strlit("");
                }
                (Some(p), Some(copy_graph(g)))
            },
            None => (None, None),
        };
        StateReport {
            agent: agent_display(self.fsm.agent()),
            phase: self.fsm.current_phase_name(),
            valid_next_phases: self.fsm.valid_next_phases(),
            session_id: string_from(self.session_state.session_id.as_str()),
            started_at: string_from(self.session_state.started_at.as_str()),
            task_progress,
            task_graph,
        }
    }

    /// Resumes a session from its snapshot `session_state`, given what its
    /// event log rebuilt (`rebuilt`) and the target of the log's last
    /// transition: the machine is placed in the resumed phase, the task
    /// graph is restored, and the snapshot is queued for writing when its
    /// phase or graph had to be corrected. Refused for an unknown agent or
    /// a phase the agent does not have. The session lock is the caller's to
    /// take first.
    pub fn resume(
        workspace: &str,
        session_state: OmdSessionState,
        rebuilt: Option<OmdSessionState>,
        last_transition: Option<String>,
    ) -> (r: Result<Self, String>)
        ensures
            ({
                let phase = resumed_phase(session_state, rebuilt, last_transition);
                match agent_from_name(session_state.agent@) {
                    None => r matches Err(e) && e@ == "Unknown agent: "@ + session_state.agent@,
                    Some(a) => if !spec_all_phase_names(a).contains(phase) {
                        r matches Err(e) && e@ == msg_not_a_phase(phase, a)
                    } else {
                        let corrected = phase != session_state.phase@ || (session_state.task_graph is None
                            && resumed_tasks(session_state, rebuilt) is Some);
                        &&& r matches Ok(rt)
                        &&& rt.fsm.spec_agent() == a
                        &&& rt.fsm.spec_phase() == spec_resolve(a, phase)
                        &&& rt.session_state.phase@ == phase
                        &&& rt.session_state.agent == session_state.agent
                        &&& rt.session_state.session_id == session_state.session_id
                        &&& rt.session_state.started_at == session_state.started_at
                        &&& same_opt_tasks(graph_view(rt.task_graph), resumed_tasks(session_state, rebuilt))
                        &&& same_opt_tasks(graph_view(rt.session_state.task_graph), resumed_tasks(session_state, rebuilt))
                        &&& rt.store.spec_workspace() == workspace@
                        &&& rt.audit_log@.len() == 0
                        &&& rt.effects@ == if corrected { seq![StoreEffect::WriteState] } else { Seq::<StoreEffect>::empty() }
                    },
                }
            }),
    {
        let store = OmdStateStore::new(workspace);
        let from_log = match &rebuilt {
            Some(s) => Some(string_from(s.phase.as_str())),
            None => match &last_transition {
                Some(p) => Some(string_from(p.as_str())),
                None => None,
            },
        };
        let effective_phase = match from_log {
            Some(p) => p,
            None => string_from(session_state.phase.as_str()),
        };
        let name = session_state.agent.as_str();
        let agent = if str_eq(name, "Tongtian") {
            OmdAgent::Tongtian
        } else if str_eq(name, "Fuxi") {
            OmdAgent::Fuxi
        } else if str_eq(name, "Pangu") {
            OmdAgent::Pangu
        } else if str_eq(name, "Hongjun") {
            OmdAgent::Hongjun
        } else {
            let mut m = string_from("Unknown agent: ");
            append_str(&mut m, name);
            return Err(m);
        };
        let fsm = match OmdFsm::with_phase(agent, effective_phase.as_str()) {
            Ok(m) => m,
            Err(e) => {
                return Err(e);
            },
        };
        let mut corrected_state = session_state;
        let phase_changed = !str_eq(corrected_state.phase.as_str(), effective_phase.as_str());
        let task_graph: Option<TaskGraph> = match &corrected_state.task_graph {
            Some(g) => Some(copy_graph(g)),
            None => match rebuilt {
                Some(s) => s.task_graph,
                None => None,
            },
        };
        let graph_restored = corrected_state.task_graph.is_none() && task_graph.is_some();
        if phase_changed {
            corrected_state.phase = effective_phase;
        }
        if graph_restored {
            corrected_state.task_graph = match &task_graph {
                Some(g) => Some(copy_graph(g)),
                None => None,
            };
        }
        let mut effects: Vec<StoreEffect> = Vec::new();
        if phase_changed || graph_restored {
            effects.push(StoreEffect::WriteState);
        }
        Ok(OmdRuntimeState {
            fsm,
            session_state: corrected_state,
            store,
            task_graph,
            audit_log: Vec::new(),
            effects,
        })
    }

    /// Handles the `omd_phase_complete` tool: the evidence must pass
    /// (`spec_evidence_gate`) before the request goes to the state machine
    /// (`handle_phase_complete`); a refusal on evidence changes nothing.
    pub fn handle_phase_complete_tool(
        &mut self,
        next_phase: &str,
        reason: &str,
        items: &[EvidenceItem],
        evidence_paths: &[Option<String>],
    ) -> (r: Result<PhaseReply, String>)
        ensures
            match spec_evidence_gate(*old(self), next_phase@, items@) {
                Some(m) => r matches Err(e) && e@ == m && same_but_effects(*old(self), *final(self))
                    && final(self).effects@ == old(self).effects@,
                None => r matches Ok(reply) && spec_phase_complete(
                    *old(self),
                    next_phase@,
                    reason@,
                    evidence_paths@,
                    false,
                    *final(self),
                    reply,
                ),
            },
    {
        match first_evidence_error(items, self.audit_log.as_slice()) {
            Some(e) => {
                return Err(e);
            },
            None => {},
        }
        let types = evidence_type_names(items);
        let current = *self.fsm.phase();
        match check_evidence_requirements(&current, next_phase, types.as_slice()) {
            Err(missing) => {
                let mut names: Vec<&'static str> = Vec::new();
                let mut k: usize = 0;
                while k < missing.len()
                    invariant
                        k <= missing.len(),
                        str_views(names@) == evidence_names(missing@.take(k as int)),
                    decreases missing.len() - k,
                {
                    names.push(crate::transition_guards::evidence_name(missing[k]));
                    assert(evidence_names(missing@.take(k + 1)) =~= evidence_names(missing@.take(k as int)).push(
                        evidence_type_name(missing@[k as int]),
                    ));
                    assert(str_views(names@) =~= evidence_names(missing@.take(k + 1)));
                    k += 1;
                }
                assert(missing@.take(missing@.len() as int) =~= missing@);
                let mut m = string_from("Transition from '");
                append_str(&mut m, current.name());
                append_str(&mut m, "' to '");
                append_str(&mut m, next_phase);
                append_str(&mut m, "' requires evidence of type(s): ");
                crate::fsm::push_debug_list(&mut m, &names);
                append_str(&mut m, ". Provide the required evidence or use ExplicitSkip with a reason.");
                return Err(m);
            },
            Ok(()) => {},
        }
        Ok(self.handle_phase_complete(next_phase, reason, evidence_paths))
    }
}

// ───────────────────────────── laws ─────────────────────────────

/// A model cannot approve its own skip: a transition request that carries
/// an explicit skip is refused on evidence, so `handle_phase_complete_tool`
/// leaves the session as it was; only the user's escape hatch skips.
pub proof fn lemma_model_skip_is_refused(a: OmdRuntimeState, next: Seq<char>, items: Seq<EvidenceItem>, k: int)
    requires
        0 <= k < items.len(),
        items[k].claim matches Ok(EvidenceClaim::ExplicitSkip { .. }),
    ensures
        spec_evidence_gate(a, next, items) is Some,
{
    lemma_skip_stops_scan(items, a.audit_log@, k, 0);
}

/// The user's escape hatch bypasses evidence only: from the same state and
/// for the same target, a forced transition is refused exactly when the
/// model's request is, and lands on the same phase when it is not.
pub proof fn lemma_user_and_model_transitions_agree(
    a: OmdRuntimeState,
    next: Seq<char>,
    reason: Seq<char>,
    paths: Seq<Option<String>>,
    b1: OmdRuntimeState,
    r1: PhaseReply,
    b2: OmdRuntimeState,
    r2: PhaseReply,
)
    requires
        spec_phase_complete(a, next, reason, paths, false, b1, r1),
        spec_phase_complete(a, next, "User-initiated phase complete"@, seq![], true, b2, r2),
    ensures
        (r1 is Moved) <==> (r2 is Moved),
        b1.fsm.spec_phase() == b2.fsm.spec_phase(),
        b1.session_state.phase@ == b2.session_state.phase@,
{
}

/// Leaving delegation for verification is refused while any task is
/// active, whoever asks, and the refusal changes nothing.
pub proof fn lemma_verify_waits_for_active_tasks(
    a: OmdRuntimeState,
    reason: Seq<char>,
    paths: Seq<Option<String>>,
    user: bool,
    b: OmdRuntimeState,
    r: PhaseReply,
)
    requires
        phase_name(a.fsm.spec_phase()) == "Delegate"@,
        active_count(a.task_graph) > 0,
        spec_phase_complete(a, "Verify"@, reason, paths, user, b, r),
    ensures
        r is Refused,
        same_but_effects(a, b),
        b.effects@ == a.effects@,
{
}

} // verus!
