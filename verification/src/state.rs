//! Session state, where it is kept on disk, and how a session is rebuilt
//! from its event log.
use vstd::prelude::*;
use crate::fsm::spec_initial_phase;
use crate::paths::{join_path, path_join};
use crate::tasks::{
    after_status_change, attempts_would_overflow, find_task, ids_unique, lemma_find_task_range,
    recomputed_status, spec_report_status, Task, TaskGraph, TaskStatus,
};
use crate::text::{
    append_str, chars_of, decimal, opt_string_view, push_decimal, str_eq, string_from, trim, trimmed_string,
};
use crate::types::{agent_display, agent_name, phase_name, OmdAgent, OmdPhase};

verus! {

/// The current time in RFC 3339 form (`chrono::Utc::now().to_rfc3339()`).
/// Nothing is claimed of it: it depends on the clock.
#[verifier::external_body]
pub(crate) fn now_rfc3339() -> String {
    chrono::Utc::now().to_rfc3339()
}

/// Name of the phase an agent's session starts in.
pub open spec fn initial_phase_name(a: OmdAgent) -> Seq<char> {
    phase_name(spec_initial_phase(a))
}

fn initial_phase_text(a: OmdAgent) -> (r: &'static str)
    ensures
        r@ == initial_phase_name(a),
{
    match a {
        OmdAgent::Tongtian => "Explore",
        OmdAgent::Fuxi => "Interview",
        OmdAgent::Pangu => "LoadPlan",
        OmdAgent::Hongjun => "Intake",
    }
}

/// Current session state, written to `current.json` on every transition.
#[derive(Debug, Clone)]
pub struct OmdSessionState {
    pub schema_version: u32,
    pub agent: String,
    pub phase: String,
    pub started_at: String,
    pub updated_at: String,
    pub session_id: String,
    pub task_graph: Option<TaskGraph>,
}

impl OmdSessionState {
    /// A new session of `agent`, started at time `now`, in the agent's first
    /// phase, with no task graph.
    pub fn new_at(agent: OmdAgent, session_id: String, now: String) -> (r: Self)
        ensures
            r.schema_version == 1,
            r.agent@ == agent_name(agent),
            r.phase@ == initial_phase_name(agent),
            r.started_at@ == now@,
            r.updated_at@ == now@,
            r.session_id@ == session_id@,
            r.task_graph is None,
    {
        OmdSessionState {
            schema_version: 1,
            agent: string_from(agent_display(agent)),
            phase: string_from(initial_phase_text(agent)),
            started_at: now.clone(),
            updated_at: now,
            session_id,
            task_graph: None,
        }
    }

    /// A new session of `agent`, started now.
    pub fn new(agent: OmdAgent, session_id: String) -> (r: Self)
        ensures
            r.schema_version == 1,
            r.agent@ == agent_name(agent),
            r.phase@ == initial_phase_name(agent),
            r.started_at@ == r.updated_at@,
            r.session_id@ == session_id@,
            r.task_graph is None,
    {
        Self::new_at(agent, session_id, now_rfc3339())
    }

    /// Records that the session moved to `phase` at time `now`.
    pub fn update_phase_at(&mut self, phase: &str, now: String)
        ensures
            final(self).phase@ == phase@,
            final(self).updated_at@ == now@,
            final(self).schema_version == old(self).schema_version,
            final(self).agent == old(self).agent,
            final(self).started_at == old(self).started_at,
            final(self).session_id == old(self).session_id,
            final(self).task_graph == old(self).task_graph,
    {
        self.phase = string_from(phase);
        self.updated_at = now;
    }

    /// The session has not reached its final phase (`Done`), so it can be
    /// resumed.
    pub fn is_unfinished(&self) -> (r: bool)
        ensures
            r == (self.phase@ != "Done"@),
    {
        !str_eq(self.phase.as_str(), "Done")
    }

    /// Records that the session moved to `phase` now.
    pub fn update_phase(&mut self, phase: &str)
        ensures
            final(self).phase@ == phase@,
            final(self).schema_version == old(self).schema_version,
            final(self).agent == old(self).agent,
            final(self).started_at == old(self).started_at,
            final(self).session_id == old(self).session_id,
            final(self).task_graph == old(self).task_graph,
    {
        self.update_phase_at(phase, now_rfc3339());
    }
}

// ───────────────────────────── layout on disk ─────────────────────────────

/// Where a workspace keeps its sessions: `<workspace>/.omd/sessions`.
pub open spec fn sessions_dir(workspace: Seq<char>) -> Seq<char> {
    path_join(path_join(workspace, ".omd"@), "sessions"@)
}

/// Where a workspace's session files are kept.
pub struct OmdStateStore {
    workspace: String,
    base_dir: String,
}

impl OmdStateStore {
    /// The workspace the store was made for.
    pub closed spec fn spec_workspace(&self) -> Seq<char> {
        self.workspace@
    }

    /// The sessions directory.
    pub closed spec fn spec_base_dir(&self) -> Seq<char> {
        self.base_dir@
    }

    /// A store for the sessions of `workspace`.
    pub fn new(workspace: &str) -> (r: Self)
        ensures
            r.spec_workspace() == workspace@,
            r.spec_base_dir() == sessions_dir(workspace@),
    {
        let omd = join_path(workspace, ".omd");
        let base_dir = join_path(omd.as_str(), "sessions");
        OmdStateStore { workspace: string_from(workspace), base_dir }
    }

    /// The workspace root.
    pub fn workspace(&self) -> (r: &str)
        ensures
            r@ == self.spec_workspace(),
    {
        self.workspace.as_str()
    }

    /// The sessions directory, `<workspace>/.omd/sessions`.
    pub fn base_dir(&self) -> (r: &str)
        ensures
            r@ == self.spec_base_dir(),
    {
        self.base_dir.as_str()
    }

    /// The snapshot of the current session: `<sessions>/current.json`.
    pub fn current_state_path(&self) -> (r: String)
        ensures
            r@ == path_join(self.spec_base_dir(), "current.json"@),
    {
        join_path(self.base_dir.as_str(), "current.json")
    }

    /// The directory of one session: `<sessions>/<session_id>`.
    pub fn session_dir(&self, session_id: &str) -> (r: String)
        ensures
            r@ == path_join(self.spec_base_dir(), session_id@),
    {
        join_path(self.base_dir.as_str(), session_id)
    }

    /// The event log of one session: `<sessions>/<session_id>/events.jsonl`.
    pub fn events_path(&self, session_id: &str) -> (r: String)
        ensures
            r@ == path_join(path_join(self.spec_base_dir(), session_id@), "events.jsonl"@),
    {
        let dir = self.session_dir(session_id);
        join_path(dir.as_str(), "events.jsonl")
    }

    /// The session lock file: `<sessions>/.lock`.
    pub fn lock_path(&self) -> (r: String)
        ensures
            r@ == path_join(self.spec_base_dir(), ".lock"@),
    {
        join_path(self.base_dir.as_str(), ".lock")
    }
}

// ───────────────────────────── replaying events ─────────────────────────────

/// One line of a session's event log, as far as rebuilding the session
/// reads it. Lines that are not JSON are left out before replay.
#[derive(Debug)]
pub enum SessionEvent {
    SessionStart { agent: Option<String>, phase: Option<String>, ts: Option<String> },
    PhaseTransition { to: Option<String> },
    /// A task status change; the first change of a task also carries the
    /// task's full definition.
    TaskUpdate { task_definition: Option<Task>, task_id: Option<String>, status: Option<String> },
    /// Any other event (checkpoint, handoff, delegation, ...).
    Other,
}

/// The status a name stands for.
pub open spec fn status_from_name(n: Seq<char>) -> Option<TaskStatus> {
    if n == "Pending"@ {
        Some(TaskStatus::Pending)
    } else if n == "Active"@ {
        Some(TaskStatus::Active)
    } else if n == "Done"@ {
        Some(TaskStatus::Done)
    } else if n == "Failed"@ {
        Some(TaskStatus::Failed)
    } else if n == "Blocked"@ {
        Some(TaskStatus::Blocked)
    } else if n == "Skipped"@ {
        Some(TaskStatus::Skipped)
    } else {
        None
    }
}

/// `ts` with blocked statuses recomputed.
pub open spec fn recomputed(ts: Seq<Task>) -> Seq<Task> {
    Seq::new(ts.len(), |i: int| Task { status: recomputed_status(ts, i), ..ts[i] })
}

/// The tasks after a replayed status report: applied as `report_status`
/// applies it, as the session applied it; a change that is refused, or that would push an attempt
/// counter past `u32::MAX`, leaves the tasks as they are.
pub open spec fn replayed_status_change(ts: Seq<Task>, id: Seq<char>, s: TaskStatus) -> Seq<Task> {
    if attempts_would_overflow(ts, id, s) {
        ts
    } else {
        match spec_report_status(ts, id, s) {
            Ok(i) => recomputed(ts.update(i, after_status_change(ts[i], s))),
            Err(_) => ts,
        }
    }
}

/// What replay has gathered: agent, phase, start time, tasks.
pub type ReplayView = (Option<Seq<char>>, Option<Seq<char>>, Option<Seq<char>>, Option<Seq<Task>>);

/// The tasks after a task update event.
pub open spec fn replay_task_update(
    tasks: Option<Seq<Task>>,
    def: Option<Task>,
    id: Option<String>,
    status: Option<String>,
) -> Option<Seq<Task>> {
    let with_def = match def {
        Some(t) => {
            let g = match tasks {
                Some(g) => g,
                None => Seq::<Task>::empty(),
            };
            Some(if find_task(g, t.id@) is None { g.push(t) } else { g })
        },
        None => tasks,
    };
    match (id, status, with_def) {
        (Some(i), Some(n), Some(g)) => match status_from_name(n@) {
            Some(s) => Some(replayed_status_change(g, i@, s)),
            None => with_def,
        },
        _ => with_def,
    }
}

/// The effect of one event: a session start sets agent, phase and start
/// time (a missing field clears it); a transition with a target sets the
/// phase; a task update adds a task seen for the first time and applies
/// the status change.
pub open spec fn replay_step(st: ReplayView, e: SessionEvent) -> ReplayView {
    match e {
        SessionEvent::SessionStart { agent, phase, ts } => (opt_string_view(agent), opt_string_view(phase), opt_string_view(ts), st.3),
        SessionEvent::PhaseTransition { to } => match to {
            Some(t) => (st.0, Some(t@), st.2, st.3),
            None => st,
        },
        SessionEvent::TaskUpdate { task_definition, task_id, status } => (
            st.0,
            st.1,
            st.2,
            replay_task_update(st.3, task_definition, task_id, status),
        ),
        SessionEvent::Other => st,
    }
}

/// The state gathered by replaying `es` in order.
pub open spec fn spec_replay(es: Seq<SessionEvent>) -> ReplayView
    decreases es.len(),
{
    if es.len() == 0 {
        (None, None, None, None)
    } else {
        replay_step(spec_replay(es.drop_last()), es.last())
    }
}

/// The target of the last phase transition in `es` that names one.
pub open spec fn spec_last_transition(es: Seq<SessionEvent>) -> Option<Seq<char>>
    decreases es.len(),
{
    if es.len() == 0 {
        None
    } else {
        match es.last() {
            SessionEvent::PhaseTransition { to: Some(t) } => Some(t@),
            _ => spec_last_transition(es.drop_last()),
        }
    }
}

/// What replaying a session's events gathered.
#[derive(Debug)]
pub struct ReplayOutcome {
    pub agent: Option<String>,
    pub phase: Option<String>,
    pub started_at: Option<String>,
    pub task_graph: Option<TaskGraph>,
}

impl View for ReplayOutcome {
    type V = ReplayView;

    open spec fn view(&self) -> ReplayView {
        (
            opt_string_view(self.agent),
            opt_string_view(self.phase),
            opt_string_view(self.started_at),
            match self.task_graph {
                Some(g) => Some(g.tasks@),
                None => None,
            },
        )
    }
}

fn status_of_name(n: &str) -> (r: Option<TaskStatus>)
    ensures
        r == status_from_name(n@),
{
    if str_eq(n, "Pending") {
        Some(TaskStatus::Pending)
    } else if str_eq(n, "Active") {
        Some(TaskStatus::Active)
    } else if str_eq(n, "Done") {
        Some(TaskStatus::Done)
    } else if str_eq(n, "Failed") {
        Some(TaskStatus::Failed)
    } else if str_eq(n, "Blocked") {
        Some(TaskStatus::Blocked)
    } else if str_eq(n, "Skipped") {
        Some(TaskStatus::Skipped)
    } else {
        None
    }
}

fn replay_status(g: &mut TaskGraph, id: &str, s: TaskStatus)
    ensures
        final(g).tasks@ == replayed_status_change(old(g).tasks@, id@, s),
{
    if g.attempts_would_overflow(id, s) {
        return;
    }
    let ghost before = g.tasks@;
    let _ = g.report_status(id, s);
    proof {
        match spec_report_status(before, id@, s) {
            Ok(i) => {
                assert(g.tasks@ =~= recomputed(before.update(i, after_status_change(before[i], s))));
            },
            Err(_) => {},
        }
    }
}

/// Replays a session's events in order (`spec_replay`): the agent, phase,
/// start time and tasks they leave behind.
pub fn replay_session_events(events: Vec<SessionEvent>) -> (r: ReplayOutcome)
    ensures
        r@ == spec_replay(events@),
{
    let ghost orig = events@;
    let mut events = events;
    let mut out = ReplayOutcome { agent: None, phase: None, started_at: None, task_graph: None };
    let mut k: usize = 0;
    while k < events.len()
        invariant
            k <= events.len(),
            events.len() == orig.len(),
            forall|j: int| k <= j < orig.len() ==> events@[j] == orig[j],
            out@ == spec_replay(orig.take(k as int)),
        decreases events.len() - k,
    {
        let mut e = SessionEvent::Other;
        std::mem::swap(&mut e, &mut events[k]);
        assert(orig.take(k + 1).drop_last() =~= orig.take(k as int));
        assert(orig.take(k + 1).last() == e);
        let ghost prev = out@;
        let ghost ev = e;
        assert(spec_replay(orig.take(k + 1)) == replay_step(prev, ev));
        match e {
            SessionEvent::SessionStart { agent, phase, ts } => {
                out.agent = agent;
                out.phase = phase;
                out.started_at = ts;
            },
            SessionEvent::PhaseTransition { to } => {
                match to {
                    Some(t) => {
                        out.phase = Some(t);
                    },
                    None => {},
                }
            },
            SessionEvent::TaskUpdate { task_definition, task_id, status } => {
                let ghost def = task_definition;
                let ghost tid = task_id;
                let ghost st = status;
                match task_definition {
                    Some(t) => {
                        let mut g = match out.task_graph {
                            Some(g) => g,
                            None => TaskGraph::new(),
                        };
                        let fresh = g.get(t.id.as_str()).is_none();
                        if fresh {
                            g.add_task(t);
                        }
                        out.task_graph = Some(g);
                    },
                    None => {},
                }
                let ghost with_def = out@.3;
                assert(with_def == match def {
                    Some(t) => {
                        let g = match prev.3 {
                            Some(g) => g,
                            None => Seq::<Task>::empty(),
                        };
                        Some(if find_task(g, t.id@) is None { g.push(t) } else { g })
                    },
                    None => prev.3,
                });
                match (task_id, status) {
                    (Some(id), Some(n)) => {
                        match status_of_name(n.as_str()) {
                            Some(s) => {
                                match out.task_graph {
                                    Some(mut g) => {
                                        replay_status(&mut g, id.as_str(), s);
                                        out.task_graph = Some(g);
                                    },
                                    None => {},
                                }
                            },
                            None => {},
                        }
                    },
                    _ => {},
                }
                assert(out@.3 == replay_task_update(prev.3, def, tid, st));
            },
            SessionEvent::Other => {},
        }
        assert(out@ == replay_step(prev, ev));
        k += 1;
    }
    assert(orig.take(orig.len() as int) =~= orig);
    out
}

/// The session that replaying `events` rebuilds, stamped `now`: none when
/// the events never named an agent and a phase.
pub fn rebuild_full_state_from_events(
    events: Vec<SessionEvent>,
    session_id: &str,
    now: String,
) -> (r: Option<OmdSessionState>)
    ensures
        ({
            let st = spec_replay(events@);
            match (st.0, st.1) {
                (Some(a), Some(p)) => r matches Some(s) && s.schema_version == 1 && s.agent@ == a
                    && s.phase@ == p && s.started_at@ == (match st.2 {
                    Some(t) => t,
                    None => Seq::<char>::empty(),
                }) && s.updated_at@ == now@ && s.session_id@ == session_id@ && (match s.task_graph {
                    Some(g) => st.3 == Some(g.tasks@),
                    None => st.3 is None,
                }),
                _ => r is None,
            }
        }),
{
    let out = replay_session_events(events);
    let agent = match out.agent {
        Some(a) => a,
        None => return None,
    };
    let phase = match out.phase {
        Some(p) => p,
        None => return None,
    };
    let started_at = match out.started_at {
        Some(t) => t,
        None => String::new(),
    };
    Some(OmdSessionState {
        schema_version: 1,
        agent,
        phase,
        started_at,
        updated_at: now,
        session_id: string_from(session_id),
        task_graph: out.task_graph,
    })
}

/// The phase the last phase transition in `events` moved to, if any.
pub fn rebuild_from_events(events: &Vec<SessionEvent>) -> (r: Option<String>)
    ensures
        opt_string_view(r) == spec_last_transition(events@),
{
    let mut k = events.len();
    assert(events@.take(events@.len() as int) =~= events@);
    while k > 0
        invariant
            k <= events.len(),
            spec_last_transition(events@) == spec_last_transition(events@.take(k as int)),
        decreases k,
    {
        assert(events@.take(k as int).drop_last() =~= events@.take(k - 1));
        assert(events@.take(k as int).last() == events@[k - 1]);
        match &events[k - 1] {
            SessionEvent::PhaseTransition { to: Some(t) } => {
                return Some(string_from(t.as_str()));
            },
            _ => {},
        }
        k -= 1;
    }
    None
}

// ───────────────────────────── laws ─────────────────────────────

proof fn lemma_status_change_keeps_ids(ts: Seq<Task>, id: Seq<char>, s: TaskStatus)
    ensures
        replayed_status_change(ts, id, s).len() == ts.len(),
        forall|i: int| 0 <= i < ts.len() ==> #[trigger] replayed_status_change(ts, id, s)[i].id == ts[i].id,
{
    if !attempts_would_overflow(ts, id, s) {
        match spec_report_status(ts, id, s) {
            Ok(j) => {
                lemma_find_task_range(ts, id, 0);
                let u = ts.update(j, after_status_change(ts[j], s));
                assert forall|i: int| 0 <= i < ts.len() implies #[trigger] recomputed(u)[i].id == ts[i].id by {
                    assert(u[i].id == ts[i].id);
                }
            },
            Err(_) => {},
        }
    }
}

/// Replaying any event log never yields two tasks with the same id: a
/// task definition is added only when its id is new, and status changes
/// keep every id.
pub proof fn lemma_replay_ids_unique(es: Seq<SessionEvent>)
    ensures
        spec_replay(es).3 matches Some(ts) ==> ids_unique(ts),
    decreases es.len(),
{
    if es.len() > 0 {
        lemma_replay_ids_unique(es.drop_last());
        let prev = spec_replay(es.drop_last());
        match es.last() {
            SessionEvent::TaskUpdate { task_definition, task_id, status } => {
                let with_def = match task_definition {
                    Some(t) => {
                        let g = match prev.3 {
                            Some(g) => g,
                            None => Seq::<Task>::empty(),
                        };
                        Some(if find_task(g, t.id@) is None { g.push(t) } else { g })
                    },
                    None => prev.3,
                };
                match task_definition {
                    Some(t) => {
                        let g = match prev.3 {
                            Some(g) => g,
                            None => Seq::<Task>::empty(),
                        };
                        lemma_find_task_range(g, t.id@, 0);
                        if find_task(g, t.id@) is None {
                            let h = g.push(t);
                            assert forall|i: int, j: int| 0 <= i < j < h.len() implies h[i].id@ != h[j].id@ by {
                                if j == g.len() {
                                    assert(g[i].id@ != t.id@);
                                } else {
                                    assert(h[i] == g[i] && h[j] == g[j]);
                                }
                            }
                        }
                    },
                    None => {},
                }
                match (task_id, status, with_def) {
                    (Some(i), Some(n), Some(g)) => match status_from_name(n@) {
                        Some(st) => {
                            lemma_status_change_keeps_ids(g, i@, st);
                            let h = replayed_status_change(g, i@, st);
                            assert forall|a: int, b: int| 0 <= a < b < h.len() implies h[a].id@ != h[b].id@ by {
                                assert(h[a].id == g[a].id && h[b].id == g[b].id);
                            }
                        },
                        None => {},
                    },
                    _ => {},
                }
            },
            _ => {},
        }
    }
}

/// A phase transition that names its target moves the replayed phase
/// there, whatever came before.
pub proof fn lemma_replay_transition_sets_phase(es: Seq<SessionEvent>, to: String)
    ensures
        spec_replay(es.push(SessionEvent::PhaseTransition { to: Some(to) })).1 == Some(to@),
{
    assert(es.push(SessionEvent::PhaseTransition { to: Some(to) }).drop_last() =~= es);
}

// ───────────────────────────── session lock ─────────────────────────────

/// A decimal digit.
pub open spec fn is_digit(c: char) -> bool {
    0x30 <= (c as u32) <= 0x39
}

/// The number the decimal digits `d` write.
pub open spec fn digits_value(d: Seq<char>) -> int
    decreases d.len(),
{
    if d.len() == 0 {
        0
    } else {
        10 * digits_value(d.drop_last()) + ((d.last() as u32) - 0x30)
    }
}

/// `str::parse::<u32>`: an optional `+` followed by one or more decimal
/// digits whose value fits in `u32`; anything else is no number.
pub open spec fn spec_parse_u32(s: Seq<char>) -> Option<u32> {
    let d = if s.len() > 0 && s[0] == '+' { s.drop_first() } else { s };
    if d.len() > 0 && (forall|k: int| 0 <= k < d.len() ==> is_digit(#[trigger] d[k])) && digits_value(d) <= u32::MAX {
        Some(digits_value(d) as u32)
    } else {
        None
    }
}

/// Calls `str::parse::<u32>`; claims the result `spec_parse_u32` states.
#[verifier::external_body]
fn parse_u32_call(s: &str) -> (r: Option<u32>)
    ensures
        r == spec_parse_u32(s@),
{
    s.parse::<u32>().ok()
}

/// The process id a lock file's text names: the trimmed text as a number,
/// if it is one.
pub fn lock_owner(content: &str) -> (r: Option<u32>)
    ensures
        r == spec_parse_u32(trim(content@)),
{
    let v = chars_of(content);
    let t = trimmed_string(&v, 0, v.len());
    assert(v@.subrange(0, v@.len() as int) =~= v@);
    parse_u32_call(t.as_str())
}

/// Whether an existing lock is stale, given the process id its text named
/// (if any) and whether that process is alive: a lock that names no
/// process, or process 0, or a process that is gone, is stale (`Ok`, to be
/// removed); a lock held by a live process is refused with its id.
pub fn judge_lock(owner: Option<u32>, alive: bool) -> (r: Result<(), String>)
    ensures
        match owner {
            Some(p) => if p != 0 && alive {
                r matches Err(m) && m@ == "Lock held by PID "@ + decimal(p as nat) + " (still alive)"@
            } else {
                r is Ok
            },
            None => r is Ok,
        },
{
    match owner {
        Some(p) => {
            if p != 0 && alive {
                let mut m = string_from("Lock held by PID ");
                push_decimal(&mut m, p as u64);
                append_str(&mut m, " (still alive)");
                Err(m)
            } else {
                Ok(())
            }
        },
        None => Ok(()),
    }
}

/// Index of the last session start in `es`.
pub open spec fn last_session_start(es: Seq<SessionEvent>) -> Option<int>
    decreases es.len(),
{
    if es.len() == 0 {
        None
    } else if es.last() is SessionStart {
        Some(es.len() - 1)
    } else {
        last_session_start(es.drop_last())
    }
}

/// The event sets the phase: a session start, or a transition that names
/// its target.
pub open spec fn sets_phase(e: SessionEvent) -> bool {
    e is SessionStart || (e matches SessionEvent::PhaseTransition { to } && to is Some)
}

/// Index of the last event in `es` that sets the phase.
pub open spec fn last_phase_setter(es: Seq<SessionEvent>) -> Option<int>
    decreases es.len(),
{
    if es.len() == 0 {
        None
    } else if sets_phase(es.last()) {
        Some(es.len() - 1)
    } else {
        last_phase_setter(es.drop_last())
    }
}

/// A rebuilt session takes its agent and start time from the last session
/// start, and its phase from the last event that set one: that session
/// start's phase, or a later transition's target.
pub proof fn lemma_replay_takes_last_events(es: Seq<SessionEvent>)
    ensures
        last_session_start(es) matches Some(i) ==> 0 <= i < es.len() && es[i] is SessionStart && (forall|j: int|
            i < j < es.len() ==> !(#[trigger] es[j] is SessionStart)),
        last_session_start(es) is None ==> forall|j: int| 0 <= j < es.len() ==> !(#[trigger] es[j] is SessionStart),
        spec_replay(es).0 == (match last_session_start(es) {
            Some(i) => opt_string_view(es[i]->agent),
            None => None,
        }),
        spec_replay(es).2 == (match last_session_start(es) {
            Some(i) => opt_string_view(es[i]->ts),
            None => None,
        }),
        last_phase_setter(es) matches Some(i) ==> 0 <= i < es.len() && sets_phase(es[i]) && (forall|j: int|
            i < j < es.len() ==> !sets_phase(#[trigger] es[j])),
        spec_replay(es).1 == (match last_phase_setter(es) {
            Some(i) => if es[i] is SessionStart {
                opt_string_view(es[i]->phase)
            } else {
                Some(es[i]->to->Some_0@)
            },
            None => None,
        }),
    decreases es.len(),
{
    if es.len() > 0 {
        let p = es.drop_last();
        lemma_replay_takes_last_events(p);
        assert forall|j: int| 0 <= j < p.len() implies #[trigger] p[j] == es[j] by {}
        let n = es.len() - 1;
        if !(es.last() is SessionStart) {
            match last_session_start(p) {
                Some(i) => {
                    assert forall|j: int| i < j < es.len() implies !(#[trigger] es[j] is SessionStart) by {
                        if j < n {
                            assert(p[j] == es[j]);
                        }
                    }
                },
                None => {
                    assert forall|j: int| 0 <= j < es.len() implies !(#[trigger] es[j] is SessionStart) by {
                        if j < n {
                            assert(p[j] == es[j]);
                        }
                    }
                },
            }
        }
        if !sets_phase(es.last()) {
            match last_phase_setter(p) {
                Some(i) => {
                    assert forall|j: int| i < j < es.len() implies !sets_phase(#[trigger] es[j]) by {
                        if j < n {
                            assert(p[j] == es[j]);
                        }
                    }
                },
                None => {},
            }
        }
    }
}

} // verus!
