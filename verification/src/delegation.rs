//! Delegating a bounded task to a worker: who may delegate to whom, and
//! what the worker is launched with.
use vstd::prelude::*;
use crate::fsm::push_debug_list;
use crate::runtime::{OmdRuntimeState, RuntimeEvent, StoreEffect};
use crate::text::{
    append_str, append_string, copy_strings, debug_list, decimal_int, join, push_decimal_i64,
    str_eq, str_views, string_from, string_views,
};
use crate::types::{agent_name, phase_name, OmdAgent};
use crate::workers::{
    describes, read_only_worker_ids, spec_worker_display_name, spec_worker_effort, spec_worker_id,
    spec_worker_index, spec_worker_prompt, spec_worker_tools, spec_worker_writes, worker_count,
    OmdWorkerConfig, WorkerRegistry,
};

verus! {

/// Why a delegation was refused.
#[derive(Debug)]
pub enum DelegationError {
    /// No worker has the requested id.
    InvalidInput(String),
    /// The requested worker may not be used by this agent in this phase.
    PermissionDenied(String),
}

/// What a worker is launched with.
#[derive(Debug)]
pub struct DelegationPlan {
    pub worker_id: &'static str,
    pub display_name: &'static str,
    /// The worker's system prompt prefix, the task, and the context and
    /// write scope sections.
    pub prompt: String,
    pub session_name: String,
    pub allowed_tools: Vec<&'static str>,
    /// The write scope the worker is held to, when one was given.
    pub write_scope: Option<Vec<String>>,
    /// Workers with a write scope get a read-only shell (so they cannot
    /// write files through the shell).
    pub shell_read_only: bool,
    pub reasoning_effort: &'static str,
    /// One more level than the delegating agent, so that the worker itself
    /// can be spawned (it holds no spawning tool).
    pub max_spawn_depth: usize,
    /// What the delegating agent is told.
    pub reply: String,
}

// ───────────────────────────── specification ─────────────────────────────

/// Ids of all workers, in registry order.
pub open spec fn all_worker_ids() -> Seq<Seq<char>> {
    Seq::new(worker_count() as nat, |i: int| spec_worker_id(i))
}

/// Why agent `agent` in the phase called `phase` may not delegate to
/// worker `id`, if it may not: in a verify phase only the verifier may be
/// used; the strategist, and the solo executor while exploring, may use
/// only the read-only workers.
pub open spec fn delegation_refusal(agent: OmdAgent, phase: Seq<char>, id: Seq<char>) -> Option<Seq<char>> {
    if phase == "Verify"@ {
        if id != "nuwa"@ {
            Some("In Verify phase, only 'nuwa' can be delegated to (got '"@ + id + "')"@)
        } else {
            None
        }
    } else if agent == OmdAgent::Fuxi {
        if !read_only_worker_ids().contains(id) {
            Some("Fuxi can only delegate to read-only workers ("@ + debug_list(read_only_worker_ids())
                + "). Got '"@ + id + "'. Fuxi gathers information — implementation is Pangu's job."@)
        } else {
            None
        }
    } else if agent == OmdAgent::Tongtian && phase == "Explore"@ {
        if !read_only_worker_ids().contains(id) {
            Some("In Explore phase, only read-only workers ("@ + debug_list(read_only_worker_ids())
                + ") can be delegated to. Got '"@ + id + "'."@)
        } else {
            None
        }
    } else {
        None
    }
}

/// Each item prefixed with `- `.
pub open spec fn bullets(items: Seq<Seq<char>>) -> Seq<Seq<char>> {
    items.map_values(|p: Seq<char>| "- "@ + p)
}

/// A titled bullet list, or nothing for no items.
pub open spec fn section(title: Seq<char>, items: Seq<Seq<char>>) -> Seq<char> {
    if items.len() == 0 {
        Seq::empty()
    } else {
        "\n\n"@ + title + ":\n"@ + join(bullets(items), "\n"@)
    }
}

/// The prompt a worker is launched with.
pub open spec fn worker_prompt(prefix: Seq<char>, task: Seq<char>, context: Seq<Seq<char>>, scope: Seq<Seq<char>>) -> Seq<char> {
    prefix + "\n\n## Task\n\n"@ + task + section("Relevant files"@, context) + section(
        "Allowed write scope"@,
        scope,
    )
}

/// The name of a worker's session.
pub open spec fn session_name(id: Seq<char>, timestamp: i64) -> Seq<char> {
    "omd-"@ + id + "-"@ + decimal_int(timestamp as int)
}

/// What the delegating agent is told.
pub open spec fn spawn_reply(display_name: Seq<char>, session: Seq<char>) -> Seq<char> {
    "Spawned worker "@ + display_name + " (session: "@ + session + "). Use `agent_eval` with session name '"@
        + session + "' to wait for results."@
}

/// How a delegation request turns out: refused for an unknown worker or a
/// worker the agent may not use here; otherwise launched with the
/// worker's tools and effort, the built prompt and session name, and the
/// write scope (with a read-only shell) when one was given.
pub open spec fn spec_plan_delegation(
    agent: OmdAgent,
    phase: Seq<char>,
    id: Seq<char>,
    task: Seq<char>,
    context: Seq<Seq<char>>,
    scope: Seq<Seq<char>>,
    timestamp: i64,
    spawn_depth: usize,
    r: Result<DelegationPlan, DelegationError>,
) -> bool {
    match spec_worker_index(id) {
        None => r matches Err(DelegationError::InvalidInput(m)) && m@ == "Unknown worker '"@ + id
            + "'. Available: "@ + debug_list(all_worker_ids()),
        Some(w) => match delegation_refusal(agent, phase, id) {
            Some(msg) => r matches Err(DelegationError::PermissionDenied(m)) && m@ == msg,
            None => {
                let name = session_name(id, timestamp);
                &&& r matches Ok(p)
                &&& p.worker_id@ == id
                &&& p.display_name@ == spec_worker_display_name(w)
                &&& p.prompt@ == worker_prompt(spec_worker_prompt(w), task, context, scope)
                &&& p.session_name@ == name
                &&& str_views(p.allowed_tools@) == spec_worker_tools(w)
                &&& (if scope.len() == 0 {
                    p.write_scope is None && !p.shell_read_only
                } else {
                    (p.write_scope matches Some(s) && string_views(s@) == scope) && p.shell_read_only
                })
                &&& p.reasoning_effort@ == spec_worker_effort(w)
                &&& p.max_spawn_depth == spawn_depth + 1
                &&& p.reply@ == spawn_reply(spec_worker_display_name(w), name)
            },
        },
    }
}

// ───────────────────────────── executable ─────────────────────────────

/// The current Unix time in seconds (`chrono::Utc::now().timestamp()`).
/// Nothing is claimed of it: it depends on the clock.
#[verifier::external_body]
fn now_timestamp() -> i64 {
    chrono::Utc::now().timestamp()
}

fn read_only_ids() -> (r: Vec<&'static str>)
    ensures
        str_views(r@) == read_only_worker_ids(),
{
    let r: Vec<&'static str> = vec!["kunpeng", "yangmei", "nuwa", "tingfeng"];
    assert(str_views(r@) =~= read_only_worker_ids());
    r
}

fn contains_id(ids: &Vec<&'static str>, id: &str) -> (r: bool)
    ensures
        r == str_views(ids@).contains(id@),
{
    let mut k: usize = 0;
    while k < ids.len()
        invariant
            k <= ids.len(),
            forall|m: int| 0 <= m < k ==> str_views(ids@)[m] != id@,
        decreases ids.len() - k,
    {
        if str_eq(ids[k], id) {
            assert(str_views(ids@)[k as int] == id@);
            return true;
        }
        k += 1;
    }
    false
}

fn refusal(agent: OmdAgent, phase: &str, id: &str) -> (r: Option<String>)
    ensures
        match delegation_refusal(agent, phase@, id@) {
            Some(m) => r matches Some(s) && s@ == m,
            None => r is None,
        },
{
    if str_eq(phase, "Verify") {
        if !str_eq(id, "nuwa") {
            let mut m = string_from("In Verify phase, only 'nuwa' can be delegated to (got '");
            append_str(&mut m, id);
            append_str(&mut m, "')");
            return Some(m);
        }
        return None;
    }
    let ro = read_only_ids();
    match agent {
        OmdAgent::Fuxi => {
            if !contains_id(&ro, id) {
                let mut m = string_from("Fuxi can only delegate to read-only workers (");
                push_debug_list(&mut m, &ro);
                append_str(&mut m, "). Got '");
                append_str(&mut m, id);
                append_str(&mut m, "'. Fuxi gathers information — implementation is Pangu's job.");
                return Some(m);
            }
            None
        },
        OmdAgent::Tongtian => {
            if str_eq(phase, "Explore") && !contains_id(&ro, id) {
                let mut m = string_from("In Explore phase, only read-only workers (");
                push_debug_list(&mut m, &ro);
                append_str(&mut m, ") can be delegated to. Got '");
                append_str(&mut m, id);
                append_str(&mut m, "'.");
                return Some(m);
            }
            None
        },
        _ => None,
    }
}

/// Appends the titled bullet list of `items` (nothing for no items).
fn push_section(s: &mut String, title: &str, items: &[String])
    ensures
        final(s)@ == old(s)@ + section(title@, string_views(items@)),
{
    let ghost views = string_views(items@);
    if items.len() == 0 {
        assert(old(s)@ + Seq::<char>::empty() =~= old(s)@);
        return;
    }
    let ghost s0 = s@;
    append_str(s, "\n\n");
    append_str(s, title);
    append_str(s, ":\n");
    let ghost head = s@;
    let mut k: usize = 0;
    while k < items.len()
        invariant
            k <= items.len(),
            items.len() > 0,
            views == string_views(items@),
            head == s0 + "\n\n"@ + title@ + ":\n"@,
            k > 0 ==> s@ == head + join(bullets(views.take(k as int)), "\n"@),
            k == 0 ==> s@ == head,
        decreases items.len() - k,
    {
        let ghost before = s@;
        if k > 0 {
            append_str(s, "\n");
        }
        append_str(s, "- ");
        append_string(s, &items[k]);
        proof {
            let b = bullets(views.take(k + 1));
            assert(b.drop_last() =~= bullets(views.take(k as int)));
            assert(b.last() == "- "@ + views[k as int]);
            if k > 0 {
                assert(join(b, "\n"@) == join(b.drop_last(), "\n"@) + "\n"@ + b.last());
                assert(s@ =~= head + join(b, "\n"@));
            } else {
                assert(b.len() == 1);
                assert(s@ =~= head + join(b, "\n"@));
            }
        }
        k += 1;
    }
    assert(views.take(items.len() as int) =~= views);
    assert(s@ =~= s0 + section(title@, views));
}

fn find_worker<'a>(registry: &'a WorkerRegistry, id: &str) -> (r: Option<&'a OmdWorkerConfig>)
    ensures
        match spec_worker_index(id@) {
            Some(i) => r matches Some(w) && describes(*w, i),
            None => r is None,
        },
{
    registry.get(id)
}

fn unknown_worker_message(registry: &WorkerRegistry, id: &str) -> (r: String)
    ensures
        r@ == "Unknown worker '"@ + id@ + "'. Available: "@ + debug_list(all_worker_ids()),
{
    let all = registry.all();
    let mut ids: Vec<&'static str> = Vec::new();
    let mut k: usize = 0;
    while k < all.len()
        invariant
            k <= all.len(),
            crate::workers::registry_holds(all@),
            str_views(ids@) == all_worker_ids().take(k as int),
        decreases all.len() - k,
    {
        assert(describes(all@[k as int], k as int));
        let ghost before = ids@;
        ids.push(all[k].id);
        assert(all_worker_ids()[k as int] == spec_worker_id(k as int));
        assert(str_views(ids@) =~= str_views(before).push(all@[k as int].id@));
        assert(all_worker_ids().take(k + 1) =~= all_worker_ids().take(k as int).push(spec_worker_id(k as int)));
        k += 1;
    }
    assert(all_worker_ids().take(all@.len() as int) =~= all_worker_ids());
    let mut m = string_from("Unknown worker '");
    append_str(&mut m, id);
    append_str(&mut m, "'. Available: ");
    push_debug_list(&mut m, &ids);
    m
}

/// Decides a delegation by agent `agent` in the phase called `phase` to
/// worker `agent_id` (see `spec_plan_delegation`), naming the worker's
/// session after `timestamp`. The delegating agent's spawn depth must
/// leave room for one more level.
pub fn plan_delegation_at(
    agent: OmdAgent,
    phase: &str,
    agent_id: &str,
    task: &str,
    context: &[String],
    write_scope: &[String],
    timestamp: i64,
    spawn_depth: usize,
) -> (r: Result<DelegationPlan, DelegationError>)
    requires
        spawn_depth < usize::MAX,
    ensures
        spec_plan_delegation(
            agent,
            phase@,
            agent_id@,
            task@,
            string_views(context@),
            string_views(write_scope@),
            timestamp,
            spawn_depth,
            r,
        ),
{
    let registry = WorkerRegistry::new();
    proof {
        crate::workers::lemma_index_in_range(agent_id@);
    }
    let worker = match find_worker(&registry, agent_id) {
        Some(w) => w,
        None => {
            return Err(DelegationError::InvalidInput(unknown_worker_message(&registry, agent_id)));
        },
    };
    match refusal(agent, phase, agent_id) {
        Some(m) => {
            return Err(DelegationError::PermissionDenied(m));
        },
        None => {},
    }
    let mut prompt = string_from(worker.system_prompt_prefix);
    append_str(&mut prompt, "\n\n## Task\n\n");
    append_str(&mut prompt, task);
    push_section(&mut prompt, "Relevant files", context);
    push_section(&mut prompt, "Allowed write scope", write_scope);
    let mut name = string_from("omd-");
    append_str(&mut name, agent_id);
    append_str(&mut name, "-");
    push_decimal_i64(&mut name, timestamp);
    let mut reply = string_from("Spawned worker ");
    append_str(&mut reply, worker.display_name);
    append_str(&mut reply, " (session: ");
    append_string(&mut reply, &name);
    append_str(&mut reply, "). Use `agent_eval` with session name '");
    append_string(&mut reply, &name);
    append_str(&mut reply, "' to wait for results.");
    let scoped = write_scope.len() > 0;
    let scope = if scoped {
        let mut v: Vec<String> = Vec::new();
        let mut k: usize = 0;
        while k < write_scope.len()
            invariant
                k <= write_scope.len(),
                string_views(v@) == string_views(write_scope@.take(k as int)),
            decreases write_scope.len() - k,
        {
            let s = string_from(write_scope[k].as_str());
            let ghost before = v@;
            v.push(s);
            assert(string_views(v@) =~= string_views(before).push(s@));
            assert(string_views(write_scope@.take(k + 1)) =~= string_views(write_scope@.take(k as int)).push(
                write_scope@[k as int]@,
            ));
            k += 1;
        }
        assert(write_scope@.take(write_scope@.len() as int) =~= write_scope@);
        Some(v)
    } else {
        None
    };
    let mut tools: Vec<&'static str> = Vec::new();
    let mut k: usize = 0;
    while k < worker.allowed_tools.len()
        invariant
            k <= worker.allowed_tools.len(),
            tools@ == worker.allowed_tools@.take(k as int),
        decreases worker.allowed_tools.len() - k,
    {
        tools.push(worker.allowed_tools[k]);
        assert(tools@ =~= worker.allowed_tools@.take(k + 1));
        k += 1;
    }
    assert(worker.allowed_tools@.take(worker.allowed_tools@.len() as int) =~= worker.allowed_tools@);
    Ok(DelegationPlan {
        worker_id: worker.id,
        display_name: worker.display_name,
        prompt,
        session_name: name,
        allowed_tools: tools,
        write_scope: scope,
        shell_read_only: scoped,
        reasoning_effort: worker.reasoning_effort,
        max_spawn_depth: spawn_depth + 1,
        reply,
    })
}

impl OmdRuntimeState {
    /// Decides a delegation to worker `agent_id` by this session's agent in
    /// its current phase, naming the worker's session after the current
    /// time (see `spec_plan_delegation`).
    pub fn plan_delegation(
        &self,
        agent_id: &str,
        task: &str,
        context: &[String],
        write_scope: &[String],
        spawn_depth: usize,
    ) -> (r: Result<DelegationPlan, DelegationError>)
        requires
            spawn_depth < usize::MAX,
        ensures
            exists|t: i64|
                spec_plan_delegation(
                    self.fsm.spec_agent(),
                    phase_name(self.fsm.spec_phase()),
                    agent_id@,
                    task@,
                    string_views(context@),
                    string_views(write_scope@),
                    t,
                    spawn_depth,
                    r,
                ),
    {
        let t = now_timestamp();
        plan_delegation_at(
            self.fsm.agent(),
            self.fsm.current_phase_name(),
            agent_id,
            task,
            context,
            write_scope,
            t,
            spawn_depth,
        )
    }

    /// Queues the event that records a launched delegation.
    pub fn record_delegation(
        &mut self,
        agent_id: &str,
        task: &str,
        task_id: Option<String>,
        category: Option<String>,
        write_scope: &[String],
        context: &[String],
        session: &str,
    )
        ensures
            crate::runtime::same_but_effects(*old(self), *final(self)),
            final(self).effects@.len() == old(self).effects@.len() + 1,
            final(self).effects@.subrange(0, old(self).effects@.len() as int) == old(self).effects@,
            final(self).effects@.last() matches StoreEffect::AppendEvent(
                RuntimeEvent::Delegate { agent, task: t, task_id: tid, category: c, write_scope: ws, context: cx, session_name },
            ) && agent@ == agent_id@ && t@ == task@ && tid == task_id && c == category
                && string_views(ws@) == string_views(write_scope@) && string_views(cx@) == string_views(context@)
                && session_name@ == session@,
    {
        let ws = copy_slice(write_scope);
        let cx = copy_slice(context);
        self.effects.push(
            StoreEffect::AppendEvent(
                RuntimeEvent::Delegate {
                    agent: string_from(agent_id),
                    task: string_from(task),
                    task_id,
                    category,
                    write_scope: ws,
                    context: cx,
                    session_name: string_from(session),
                },
            ),
        );
    }
}

fn copy_slice(items: &[String]) -> (r: Vec<String>)
    ensures
        string_views(r@) == string_views(items@),
{
    let mut v: Vec<String> = Vec::new();
    let mut k: usize = 0;
    while k < items.len()
        invariant
            k <= items.len(),
            string_views(v@) == string_views(items@.take(k as int)),
        decreases items.len() - k,
    {
        let s = string_from(items[k].as_str());
        let ghost before = v@;
        v.push(s);
        assert(string_views(v@) =~= string_views(before).push(s@));
        assert(string_views(items@.take(k + 1)) =~= string_views(items@.take(k as int)).push(items@[k as int]@));
        k += 1;
    }
    assert(items@.take(items@.len() as int) =~= items@);
    v
}

// ───────────────────────────── laws ─────────────────────────────

/// A delegation that is launched never hands a worker a way to delegate
/// further: its tools hold neither `agent_open` nor `omd_delegate`.
pub proof fn lemma_delegated_worker_cannot_delegate(
    agent: OmdAgent,
    phase: Seq<char>,
    id: Seq<char>,
    task: Seq<char>,
    context: Seq<Seq<char>>,
    scope: Seq<Seq<char>>,
    timestamp: i64,
    spawn_depth: usize,
    r: Result<DelegationPlan, DelegationError>,
)
    requires
        spec_plan_delegation(agent, phase, id, task, context, scope, timestamp, spawn_depth, r),
        r is Ok,
    ensures
        !str_views(r->Ok_0.allowed_tools@).contains("agent_open"@),
        !str_views(r->Ok_0.allowed_tools@).contains("omd_delegate"@),
{
    let w = spec_worker_index(id)->Some_0;
    crate::workers::lemma_index_in_range(id);
    crate::workers::lemma_workers_cannot_delegate(w);
}

/// The strategist only ever launches read-only workers, which cannot
/// write code.
pub proof fn lemma_strategist_delegates_read_only(
    phase: Seq<char>,
    id: Seq<char>,
    task: Seq<char>,
    context: Seq<Seq<char>>,
    scope: Seq<Seq<char>>,
    timestamp: i64,
    spawn_depth: usize,
    r: Result<DelegationPlan, DelegationError>,
)
    requires
        spec_plan_delegation(OmdAgent::Fuxi, phase, id, task, context, scope, timestamp, spawn_depth, r),
        r is Ok,
    ensures
        read_only_worker_ids().contains(id),
        !spec_worker_writes(spec_worker_index(id)->Some_0),
{
    let w = spec_worker_index(id)->Some_0;
    crate::workers::lemma_index_in_range(id);
    if phase == "Verify"@ {
        reveal_strlit("nuwa");
        assert(read_only_worker_ids()[2] == "nuwa"@);
    }
    crate::workers::lemma_read_only_workers_cannot_write(w);
}


/// A delegation is refused as invalid exactly when no worker has the id,
/// and as not permitted exactly when, in a verify phase, the worker is not
/// the verifier, or when the strategist (or the solo executor while
/// exploring) asks for a worker that is not read-only. Otherwise the worker
/// is launched with its own tool allowlist. (`plan_delegation` reads the
/// runtime only, so a refusal launches nothing and records nothing.)
pub proof fn lemma_delegation_outcome(
    agent: OmdAgent,
    phase: Seq<char>,
    id: Seq<char>,
    task: Seq<char>,
    context: Seq<Seq<char>>,
    scope: Seq<Seq<char>>,
    timestamp: i64,
    spawn_depth: usize,
    r: Result<DelegationPlan, DelegationError>,
)
    requires
        spec_plan_delegation(agent, phase, id, task, context, scope, timestamp, spawn_depth, r),
    ensures
        (r matches Err(DelegationError::InvalidInput(_))) <==> spec_worker_index(id) is None,
        (r matches Err(DelegationError::PermissionDenied(_))) <==> (spec_worker_index(id) is Some && ((phase
            == "Verify"@ && id != "nuwa"@) || ((agent == OmdAgent::Fuxi || (agent == OmdAgent::Tongtian && phase
            == "Explore"@)) && !read_only_worker_ids().contains(id)))),
        r is Ok ==> (spec_worker_index(id) matches Some(w) && str_views(r->Ok_0.allowed_tools@) == spec_worker_tools(w)
            && r->Ok_0.worker_id@ == id),
{
    reveal_strlit("Verify");
    reveal_strlit("Explore");
}

} // verus!
