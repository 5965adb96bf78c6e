//! Task graph: tasks with dependencies, status transitions, retries.
use vstd::prelude::*;
use crate::shell_policy::unit_result_view;
use crate::text::{
    append_str, append_string, copy_opt_string, copy_strings, opt_string_view, push_decimal,
    string_from, string_views,
};

verus! {

#[derive(Debug, Clone, Copy, PartialEq, Eq, Structural)]
pub enum TaskStatus {
    Pending,
    Blocked,
    Active,
    Done,
    Failed,
    Skipped,
}

/// One unit of delegated work.
#[derive(Debug, Clone)]
pub struct Task {
    pub id: String,
    pub description: String,
    pub status: TaskStatus,
    pub owner: Option<String>,
    pub depends_on: Vec<String>,
    pub attempts: u32,
    pub max_attempts: u32,
    pub failure_reason: Option<String>,
    pub changed_files: Vec<String>,
    /// Verified evidence collected from workers, each item as JSON text.
    pub evidence: Vec<String>,
    /// Allowed file paths/globs for the task's write operations
    pub write_scope: Vec<String>,
    /// Task category: implementation, test, explore, or debug
    pub category: Option<String>,
}

impl Task {
    /// A pending task with no dependencies and three attempts allowed.
    pub fn new(id: &str, description: &str) -> (r: Self)
        ensures
            r.id@ == id@,
            r.description@ == description@,
            r.status == TaskStatus::Pending,
            r.owner is None,
            r.depends_on@.len() == 0,
            r.attempts == 0,
            r.max_attempts == 3,
            r.failure_reason is None,
            r.changed_files@.len() == 0,
            r.evidence@.len() == 0,
            r.write_scope@.len() == 0,
            r.category is None,
    {
        Task {
            id: string_from(id),
            description: string_from(description),
            status: TaskStatus::Pending,
            owner: None,
            depends_on: Vec::new(),
            attempts: 0,
            max_attempts: 3,
            failure_reason: None,
            changed_files: Vec::new(),
            evidence: Vec::new(),
            write_scope: Vec::new(),
            category: None,
        }
    }
}

/// `a` and `b` hold the same values: equal statuses and counters, and
/// strings and lists of strings with equal views.
pub open spec fn same_task(a: Task, b: Task) -> bool {
    &&& a.id@ == b.id@
    &&& a.description@ == b.description@
    &&& a.status == b.status
    &&& opt_string_view(a.owner) == opt_string_view(b.owner)
    &&& string_views(a.depends_on@) == string_views(b.depends_on@)
    &&& a.attempts == b.attempts
    &&& a.max_attempts == b.max_attempts
    &&& opt_string_view(a.failure_reason) == opt_string_view(b.failure_reason)
    &&& string_views(a.changed_files@) == string_views(b.changed_files@)
    &&& string_views(a.evidence@) == string_views(b.evidence@)
    &&& string_views(a.write_scope@) == string_views(b.write_scope@)
    &&& opt_string_view(a.category) == opt_string_view(b.category)
}

/// `a` and `b` hold the same tasks, in the same order.
pub open spec fn same_tasks(a: Seq<Task>, b: Seq<Task>) -> bool {
    a.len() == b.len() && forall|i: int| 0 <= i < a.len() ==> same_task(#[trigger] a[i], b[i])
}

/// A copy of a task.
pub fn copy_task(t: &Task) -> (r: Task)
    ensures
        same_task(r, *t),
{
    Task {
        id: string_from(t.id.as_str()),
        description: string_from(t.description.as_str()),
        status: t.status,
        owner: copy_opt_string(&t.owner),
        depends_on: copy_strings(&t.depends_on),
        attempts: t.attempts,
        max_attempts: t.max_attempts,
        failure_reason: copy_opt_string(&t.failure_reason),
        changed_files: copy_strings(&t.changed_files),
        evidence: copy_strings(&t.evidence),
        write_scope: copy_strings(&t.write_scope),
        category: copy_opt_string(&t.category),
    }
}

/// A copy of a task graph.
pub fn copy_graph(g: &TaskGraph) -> (r: TaskGraph)
    ensures
        same_tasks(r.tasks@, g.tasks@),
{
    let mut tasks: Vec<Task> = Vec::new();
    let mut k: usize = 0;
    while k < g.tasks.len()
        invariant
            k <= g.tasks.len(),
            tasks@.len() == k,
            forall|i: int| 0 <= i < k ==> same_task(#[trigger] tasks@[i], g.tasks@[i]),
        decreases g.tasks.len() - k,
    {
        tasks.push(copy_task(&g.tasks[k]));
        k += 1;
    }
    TaskGraph { tasks }
}

// ───────────────────────────── specification ─────────────────────────────

/// The status changes a task may make.
pub open spec fn spec_valid_transition(from: TaskStatus, to: TaskStatus) -> bool {
    ||| (from == TaskStatus::Pending && to == TaskStatus::Active)
    ||| (from == TaskStatus::Pending && to == TaskStatus::Skipped)
    ||| (from == TaskStatus::Active && to == TaskStatus::Done)
    ||| (from == TaskStatus::Active && to == TaskStatus::Failed)
    ||| (from == TaskStatus::Failed && to == TaskStatus::Active)
    ||| (from == TaskStatus::Blocked && to == TaskStatus::Pending)
}

/// The dependency ids of a task.
pub open spec fn deps_of(t: Task) -> Seq<Seq<char>> {
    string_views(t.depends_on@)
}

/// Index of the first task with id `id` at or after `k`.
pub open spec fn find_task_from(ts: Seq<Task>, id: Seq<char>, k: int) -> Option<int>
    decreases ts.len() - k,
{
    if k < 0 || k >= ts.len() {
        None
    } else if ts[k].id@ == id {
        Some(k)
    } else {
        find_task_from(ts, id, k + 1)
    }
}

/// Index of the first task with id `id`.
pub open spec fn find_task(ts: Seq<Task>, id: Seq<char>) -> Option<int> {
    find_task_from(ts, id, 0)
}

/// The task that id `d` names exists and is done.
pub open spec fn dep_done(ts: Seq<Task>, d: Seq<char>) -> bool {
    match find_task(ts, d) {
        Some(j) => ts[j].status == TaskStatus::Done,
        None => false,
    }
}

/// Every dependency of task `i` exists and is done.
pub open spec fn deps_done(ts: Seq<Task>, i: int) -> bool {
    forall|k: int| 0 <= k < deps_of(ts[i]).len() ==> dep_done(ts, #[trigger] deps_of(ts[i])[k])
}

/// Task `i` can run: it is pending and its dependencies are done.
pub open spec fn runnable(ts: Seq<Task>, i: int) -> bool {
    ts[i].status == TaskStatus::Pending && deps_done(ts, i)
}

/// Index of the first runnable task at or after `k`.
pub open spec fn first_runnable_from(ts: Seq<Task>, k: int) -> Option<int>
    decreases ts.len() - k,
{
    if k < 0 || k >= ts.len() {
        None
    } else if runnable(ts, k) {
        Some(k)
    } else {
        first_runnable_from(ts, k + 1)
    }
}

/// Status of task `i` after blocked-status recomputation: pending tasks with
/// unfinished dependencies become blocked, blocked tasks whose
/// dependencies are all done become pending again.
pub open spec fn recomputed_status(ts: Seq<Task>, i: int) -> TaskStatus {
    if ts[i].status == TaskStatus::Pending && !deps_done(ts, i) {
        TaskStatus::Blocked
    } else if ts[i].status == TaskStatus::Blocked && deps_done(ts, i) {
        TaskStatus::Pending
    } else {
        ts[i].status
    }
}

/// `new` is `old` with only statuses changed, to `recomputed_status`.
pub open spec fn is_recomputed(old: Seq<Task>, new: Seq<Task>) -> bool {
    &&& new.len() == old.len()
    &&& forall|i: int|
        0 <= i < old.len() ==> #[trigger] new[i] == (Task { status: recomputed_status(old, i), ..old[i] })
}

/// Number of tasks with status `s` in `ts`.
pub open spec fn count_status(ts: Seq<Task>, s: TaskStatus) -> nat
    decreases ts.len(),
{
    if ts.len() == 0 {
        0
    } else {
        count_status(ts.drop_last(), s) + if ts.last().status == s { 1nat } else { 0nat }
    }
}

/// Number of active tasks whose id differs from `id`.
pub open spec fn count_other_active(ts: Seq<Task>, id: Seq<char>) -> nat
    decreases ts.len(),
{
    if ts.len() == 0 {
        0
    } else {
        count_other_active(ts.drop_last(), id) + if ts.last().status == TaskStatus::Active
            && ts.last().id@ != id {
            1nat
        } else {
            0nat
        }
    }
}

/// Every task is done or skipped.
pub open spec fn spec_all_done(ts: Seq<Task>) -> bool {
    forall|i: int|
        0 <= i < ts.len() ==> (#[trigger] ts[i].status == TaskStatus::Done || ts[i].status
            == TaskStatus::Skipped)
}

/// Debug name of a status.
pub open spec fn status_name(s: TaskStatus) -> Seq<char> {
    match s {
        TaskStatus::Pending => "Pending"@,
        TaskStatus::Blocked => "Blocked"@,
        TaskStatus::Active => "Active"@,
        TaskStatus::Done => "Done"@,
        TaskStatus::Failed => "Failed"@,
        TaskStatus::Skipped => "Skipped"@,
    }
}

/// How setting status `s` on the task with id `id` turns out: the index
/// of the changed task, or the error message.
pub open spec fn spec_set_status(ts: Seq<Task>, id: Seq<char>, s: TaskStatus) -> Result<int, Seq<char>> {
    if s == TaskStatus::Active && count_other_active(ts, id) >= 1 {
        Err("Cannot activate '"@ + id + "': max 1 active task at a time"@)
    } else {
        match find_task(ts, id) {
            None => Err("Task '"@ + id + "' not found"@),
            Some(i) => if ts[i].status == TaskStatus::Failed && s == TaskStatus::Active
                && ts[i].attempts >= ts[i].max_attempts {
                Err("Task '"@ + id + "' exhausted "@ + crate::text::decimal(ts[i].max_attempts as nat)
                    + " retries"@)
            } else if !spec_valid_transition(ts[i].status, s) {
                Err("Invalid transition for '"@ + id + "': "@ + status_name(ts[i].status)
                    + " → "@ + status_name(s))
            } else {
                Ok(i)
            },
        }
    }
}

/// How a worker's status report applies to task `id`: a report that a
/// pending task is done is accepted (the worker finished it without the
/// task being marked active first); any other report is a status change as
/// `set_status` makes it. The transition table itself is unchanged.
pub open spec fn spec_report_status(ts: Seq<Task>, id: Seq<char>, s: TaskStatus) -> Result<int, Seq<char>> {
    match find_task(ts, id) {
        Some(i) => if s == TaskStatus::Done && ts[i].status == TaskStatus::Pending {
            Ok(i)
        } else {
            spec_set_status(ts, id, s)
        },
        None => spec_set_status(ts, id, s),
    }
}

/// Setting status `s` would push the attempt counter of the task past
/// `u32::MAX`.
pub open spec fn attempts_would_overflow(ts: Seq<Task>, id: Seq<char>, s: TaskStatus) -> bool {
    spec_set_status(ts, id, s) matches Ok(i) && ts[i].status == TaskStatus::Active && s
        == TaskStatus::Failed && ts[i].attempts == u32::MAX
}

/// Task `t` after a successful status change to `s`.
pub open spec fn after_status_change(t: Task, s: TaskStatus) -> Task {
    Task {
        status: s,
        attempts: if t.status == TaskStatus::Active && s == TaskStatus::Failed {
            (t.attempts + 1) as u32
        } else {
            t.attempts
        },
        ..t
    }
}


/// Index of the first task, at or after `j`, whose id an earlier task already has.
pub open spec fn first_dup_from(ts: Seq<Task>, j: int) -> Option<int>
    decreases ts.len() - j,
{
    if j < 0 || j >= ts.len() {
        None
    } else if exists|i: int| 0 <= i < j && #[trigger] ts[i].id@ == ts[j].id@ {
        Some(j)
    } else {
        first_dup_from(ts, j + 1)
    }
}

/// Index of the first dependency of task `i`, at or after `k`, that names
/// no task.
pub open spec fn first_missing_dep(ts: Seq<Task>, i: int, k: int) -> Option<int>
    decreases deps_of(ts[i]).len() - k,
{
    if k < 0 || k >= deps_of(ts[i]).len() {
        None
    } else if find_task(ts, deps_of(ts[i])[k]) is None {
        Some(k)
    } else {
        first_missing_dep(ts, i, k + 1)
    }
}

/// The first task, at or after `i`, with a dependency that names no task,
/// and the index of that dependency.
pub open spec fn first_missing_from(ts: Seq<Task>, i: int) -> Option<(int, int)>
    decreases ts.len() - i,
{
    if i < 0 || i >= ts.len() {
        None
    } else {
        match first_missing_dep(ts, i, 0) {
            Some(k) => Some((i, k)),
            None => first_missing_from(ts, i + 1),
        }
    }
}

/// `rank` orders the graph: every dependency of a task names a task of
/// smaller rank.
pub open spec fn ranked(ts: Seq<Task>, rank: Seq<nat>) -> bool {
    &&& rank.len() == ts.len()
    &&& forall|i: int, k: int|
        0 <= i < ts.len() && 0 <= k < deps_of(ts[i]).len() ==> (match find_task(
            ts,
            #[trigger] deps_of(ts[i])[k],
        ) {
            Some(j) => rank[j] < rank[i],
            None => false,
        })
}

/// The dependency relation has no cycle: some ranking orders it.
pub open spec fn acyclic(ts: Seq<Task>) -> bool {
    exists|rank: Seq<nat>| ranked(ts, rank)
}

/// Outcome of validating a graph: ids unique, every dependency names a
/// task, and the dependencies form no cycle. A dependency listed twice is
/// no cycle.
pub open spec fn spec_validate(ts: Seq<Task>) -> Result<(), Seq<char>> {
    match first_dup_from(ts, 0) {
        Some(j) => Err("Duplicate task ID: "@ + ts[j].id@),
        None => match first_missing_from(ts, 0) {
            Some((i, k)) => Err(
                "Task '"@ + ts[i].id@ + "' depends on non-existent '"@ + deps_of(ts[i])[k] + "'"@,
            ),
            None => if acyclic(ts) {
                Ok(())
            } else {
                Err("Task graph contains a cycle"@)
            },
        },
    }
}

/// Ids are pairwise distinct.
pub open spec fn ids_unique(ts: Seq<Task>) -> bool {
    forall|i: int, j: int| 0 <= i < j < ts.len() ==> ts[i].id@ != ts[j].id@
}

/// Every dependency names a task.
pub open spec fn deps_exist(ts: Seq<Task>) -> bool {
    forall|i: int, k: int|
        0 <= i < ts.len() && 0 <= k < deps_of(ts[i]).len() ==> find_task(
            ts,
            #[trigger] deps_of(ts[i])[k],
        ) is Some
}

/// Number of `true` entries.
pub open spec fn num_true(m: Seq<bool>) -> nat
    decreases m.len(),
{
    if m.len() == 0 {
        0
    } else {
        num_true(m.drop_last()) + if m.last() { 1nat } else { 0nat }
    }
}

// ───────────────────────────── executable ─────────────────────────────

pub fn is_valid_transition(from: &TaskStatus, to: &TaskStatus) -> (r: bool)
    ensures
        r == spec_valid_transition(*from, *to),
{
    match (from, to) {
        (TaskStatus::Pending, TaskStatus::Active) => true,
        (TaskStatus::Pending, TaskStatus::Skipped) => true,
        (TaskStatus::Active, TaskStatus::Done) => true,
        (TaskStatus::Active, TaskStatus::Failed) => true,
        (TaskStatus::Failed, TaskStatus::Active) => true,
        (TaskStatus::Blocked, TaskStatus::Pending) => true,
        _ => false,
    }
}

fn status_eq(a: TaskStatus, b: TaskStatus) -> (r: bool)
    ensures
        r == (a == b),
{
    match (a, b) {
        (TaskStatus::Pending, TaskStatus::Pending) => true,
        (TaskStatus::Blocked, TaskStatus::Blocked) => true,
        (TaskStatus::Active, TaskStatus::Active) => true,
        (TaskStatus::Done, TaskStatus::Done) => true,
        (TaskStatus::Failed, TaskStatus::Failed) => true,
        (TaskStatus::Skipped, TaskStatus::Skipped) => true,
        _ => false,
    }
}

pub fn status_text(s: TaskStatus) -> (r: &'static str)
    ensures
        r@ == status_name(s),
{
    match s {
        TaskStatus::Pending => "Pending",
        TaskStatus::Blocked => "Blocked",
        TaskStatus::Active => "Active",
        TaskStatus::Done => "Done",
        TaskStatus::Failed => "Failed",
        TaskStatus::Skipped => "Skipped",
    }
}


/// Whether task `j` has an id that some earlier task already has.
fn id_seen_before(ts: &Vec<Task>, j: usize) -> (r: bool)
    requires
        j < ts.len(),
    ensures
        r == exists|i: int| 0 <= i < j && #[trigger] ts@[i].id@ == ts@[j as int].id@,
{
    let mut i: usize = 0;
    while i < j
        invariant
            i <= j < ts.len(),
            forall|a: int| 0 <= a < i ==> #[trigger] ts@[a].id@ != ts@[j as int].id@,
        decreases j - i,
    {
        if ts[i].id == ts[j].id {
            return true;
        }
        i += 1;
    }
    false
}

/// Message naming the task and dependency that names no task.
fn missing_dep_message(t: &Task, dep: &String) -> (r: String)
    ensures
        r@ == "Task '"@ + t.id@ + "' depends on non-existent '"@ + dep@ + "'"@,
{
    let mut m = string_from("Task '");
    append_string(&mut m, &t.id);
    append_str(&mut m, "' depends on non-existent '");
    append_string(&mut m, dep);
    append_str(&mut m, "'");
    m
}

/// Validates a task list: unique ids, existing dependencies, no cycle.
fn validate_tasks(ts: &Vec<Task>) -> (r: Result<(), String>)
    ensures
        unit_result_view(r) == spec_validate(ts@),
{
    let n = ts.len();
    // Check unique IDs
    let mut j: usize = 0;
    while j < n
        invariant
            n == ts.len(),
            j <= n,
            first_dup_from(ts@, j as int) == first_dup_from(ts@, 0),
        decreases n - j,
    {
        if id_seen_before(ts, j) {
            assert(first_dup_from(ts@, j as int) == Some(j as int));
            let mut m = string_from("Duplicate task ID: ");
            append_string(&mut m, &ts[j].id);
            assert(m@ == "Duplicate task ID: "@ + ts@[j as int].id@);
            assert(spec_validate(ts@) == Err::<(), Seq<char>>(m@));
            return Err(m);
        }
        j += 1;
    }
    proof {
        lemma_first_dup_none(ts@, 0);
    }
    // Check deps exist
    let mut i: usize = 0;
    while i < n
        invariant
            n == ts.len(),
            i <= n,
            first_dup_from(ts@, 0) is None,
            first_missing_from(ts@, i as int) == first_missing_from(ts@, 0),
        decreases n - i,
    {
        let deps = &ts[i].depends_on;
        let mut k: usize = 0;
        while k < deps.len()
            invariant
                n == ts.len(),
                i < n,
                k <= deps.len(),
                deps@ == ts@[i as int].depends_on@,
                first_missing_dep(ts@, i as int, k as int) == first_missing_dep(ts@, i as int, 0),
                first_dup_from(ts@, 0) is None,
                first_missing_from(ts@, i as int) == first_missing_from(ts@, 0),
            decreases deps.len() - k,
        {
            assert(deps_of(ts@[i as int])[k as int] == deps@[k as int]@);
            if find_index_from(ts, &deps[k], 0).is_none() {
                assert(first_missing_from(ts@, i as int) == Some((i as int, k as int)));
                return Err(missing_dep_message(&ts[i], &deps[k]));
            }
            k += 1;
        }
        i += 1;
    }
    proof {
        lemma_first_missing_none(ts@, 0);
    }
    // Index of the task each dependency names
    let mut dep_idx: Vec<Vec<usize>> = Vec::new();
    let mut i: usize = 0;
    while i < n
        invariant
            n == ts.len(),
            i <= n,
            dep_idx@.len() == i,
            deps_exist(ts@),
            forall|a: int| 0 <= a < i ==> #[trigger] dep_idx@[a]@.len() == deps_of(ts@[a]).len(),
            forall|a: int, k: int|
                0 <= a < i && 0 <= k < deps_of(ts@[a]).len() ==> find_task(ts@, deps_of(ts@[a])[k])
                    == Some(#[trigger] dep_idx@[a]@[k] as int),
        decreases n - i,
    {
        let deps = &ts[i].depends_on;
        let mut row: Vec<usize> = Vec::new();
        let mut k: usize = 0;
        while k < deps.len()
            invariant
                n == ts.len(),
                i < n,
                k <= deps.len(),
                deps@ == ts@[i as int].depends_on@,
                deps_exist(ts@),
                row@.len() == k,
                forall|m: int|
                    0 <= m < k ==> find_task(ts@, deps_of(ts@[i as int])[m]) == Some(#[trigger] row@[m] as int),
            decreases deps.len() - k,
        {
            assert(deps_of(ts@[i as int])[k as int] == deps@[k as int]@);
            assert(find_task(ts@, deps_of(ts@[i as int])[k as int]) is Some);
            let x = find_index_from(ts, &deps[k], 0);
            let jx = match x {
                Some(jx) => jx,
                None => 0,
            };
            row.push(jx);
            k += 1;
        }
        dep_idx.push(row);
        i += 1;
    }
    // Mark tasks whose dependencies are all marked, until nothing changes
    let mut marked: Vec<bool> = Vec::new();
    let mut i: usize = 0;
    while i < n
        invariant
            i <= n,
            marked@.len() == i,
            forall|a: int| 0 <= a < i ==> !#[trigger] marked@[a],
        decreases n - i,
    {
        marked.push(false);
        i += 1;
    }
    proof {
        assert(num_true(marked@) == 0) by {
            lemma_all_false(marked@);
        }
    }
    let ghost mut rank: Seq<nat> = Seq::new(n as nat, |x: int| 0nat);
    let mut count: usize = 0;
    loop
        invariant
            n == ts.len(),
            marked@.len() == n,
            rank.len() == n,
            dep_idx@.len() == n,
            count == num_true(marked@),
            count <= n,
            forall|a: int| 0 <= a < n ==> #[trigger] dep_idx@[a]@.len() == deps_of(ts@[a]).len(),
            forall|a: int, k: int|
                0 <= a < n && 0 <= k < deps_of(ts@[a]).len() ==> find_task(ts@, deps_of(ts@[a])[k])
                    == Some(#[trigger] dep_idx@[a]@[k] as int),
            forall|a: int| 0 <= a < n && #[trigger] marked@[a] ==> rank[a] < count,
            forall|a: int, k: int|
                0 <= a < n && marked@[a] && 0 <= k < dep_idx@[a]@.len() ==> marked@[#[trigger] dep_idx@[a]@[k] as int]
                    && rank[dep_idx@[a]@[k] as int] < rank[a],
        ensures
            marked@.len() == n,
            rank.len() == n,
            forall|a: int, k: int|
                0 <= a < n && marked@[a] && 0 <= k < dep_idx@[a]@.len() ==> marked@[#[trigger] dep_idx@[a]@[k] as int]
                    && rank[dep_idx@[a]@[k] as int] < rank[a],
            forall|a: int|
                0 <= a < n && !#[trigger] marked@[a] ==> exists|k: int|
                    0 <= k < dep_idx@[a]@.len() && !marked@[#[trigger] dep_idx@[a]@[k] as int],
            count == num_true(marked@),
        decreases n - count,
    {
        let mut changed = false;
        let ghost before = marked@;
        let mut i: usize = 0;
        while i < n
            invariant
                n == ts.len(),
                i <= n,
                marked@.len() == n,
                rank.len() == n,
                dep_idx@.len() == n,
                count == num_true(marked@),
                count <= n,
                forall|a: int| 0 <= a < n ==> #[trigger] dep_idx@[a]@.len() == deps_of(ts@[a]).len(),
                forall|a: int, k: int|
                    0 <= a < n && 0 <= k < deps_of(ts@[a]).len() ==> find_task(ts@, deps_of(ts@[a])[k])
                        == Some(#[trigger] dep_idx@[a]@[k] as int),
                forall|a: int| 0 <= a < n && #[trigger] marked@[a] ==> rank[a] < count,
                forall|a: int, k: int|
                    0 <= a < n && marked@[a] && 0 <= k < dep_idx@[a]@.len() ==> marked@[#[trigger] dep_idx@[a]@[k] as int]
                        && rank[dep_idx@[a]@[k] as int] < rank[a],
                !changed ==> marked@ == before,
                changed ==> num_true(marked@) > num_true(before),
                !changed ==> forall|a: int|
                    0 <= a < i && !#[trigger] marked@[a] ==> exists|k: int|
                        0 <= k < dep_idx@[a]@.len() && !marked@[#[trigger] dep_idx@[a]@[k] as int],
            decreases n - i,
        {
            if !marked[i] {
                let row = &dep_idx[i];
                let mut all = true;
                let mut k: usize = 0;
                while k < row.len()
                    invariant
                        k <= row.len(),
                        n == ts.len(),
                        marked@.len() == n,
                        i < n,
                        dep_idx@.len() == n,
                        row@ == dep_idx@[i as int]@,
                        forall|a: int| 0 <= a < n ==> #[trigger] dep_idx@[a]@.len() == deps_of(ts@[a]).len(),
                        forall|a: int, kk: int|
                            0 <= a < n && 0 <= kk < deps_of(ts@[a]).len() ==> find_task(ts@, deps_of(ts@[a])[kk])
                                == Some(#[trigger] dep_idx@[a]@[kk] as int),
                        all ==> forall|m: int| 0 <= m < k ==> marked@[#[trigger] row@[m] as int],
                        !all ==> exists|m: int| 0 <= m < row@.len() && !marked@[#[trigger] row@[m] as int],
                    decreases row.len() - k,
                {
                    proof {
                        assert(find_task(ts@, deps_of(ts@[i as int])[k as int]) == Some(row@[k as int] as int));
                        lemma_find_task_range(ts@, deps_of(ts@[i as int])[k as int], 0);
                    }
                    if !marked[row[k]] {
                        all = false;
                    }
                    k += 1;
                }
                if all {
                    proof {
                        lemma_num_true_update(marked@, i as int);
                        lemma_num_true_bound(marked@.update(i as int, true));
                        rank = rank.update(i as int, count as nat);
                    }
                    let ghost prev = marked@;
                    marked.set(i, true);
                    count += 1;
                    changed = true;
                    proof {
                        assert forall|a: int, k: int|
                            0 <= a < n && marked@[a] && 0 <= k < dep_idx@[a]@.len() implies marked@[#[trigger] dep_idx@[a]@[k] as int]
                                && rank[dep_idx@[a]@[k] as int] < rank[a] by {
                            let d = dep_idx@[a]@[k] as int;
                            assert(find_task(ts@, deps_of(ts@[a])[k]) == Some(d));
                            lemma_find_task_range(ts@, deps_of(ts@[a])[k], 0);
                            if a == i {
                                assert(prev[d]);
                            } else {
                                assert(prev[a]);
                            }
                        }
                    }
                }
            }
            i += 1;
        }
        if !changed {
            break;
        }
    }
    proof {
        lemma_num_true_bound(marked@);
    }
    if count == n {
        proof {
            assert(ranked(ts@, rank)) by {
                assert forall|a: int, k: int|
                    0 <= a < ts@.len() && 0 <= k < deps_of(ts@[a]).len() implies (match find_task(
                        ts@,
                        #[trigger] deps_of(ts@[a])[k],
                    ) {
                        Some(j) => rank[j] < rank[a],
                        None => false,
                    }) by {
                    assert(marked@[a]);
                    assert(find_task(ts@, deps_of(ts@[a])[k]) == Some(dep_idx@[a]@[k] as int));
                }
            }
        }
        Ok(())
    } else {
        proof {
            assert(!acyclic(ts@)) by {
                if acyclic(ts@) {
                    let r = choose|r: Seq<nat>| ranked(ts@, r);
                    let i0 = choose|a: int| 0 <= a < n && !marked@[a];
                    lemma_stuck_rank_bound(ts@, dep_idx@, marked@, r, r[i0] + 1);
                }
            }
        }
        Err(string_from("Task graph contains a cycle"))
    }
}

/// A graph of tasks.
#[derive(Debug, Clone, Default)]
pub struct TaskGraph {
    pub tasks: Vec<Task>,
}

/// Index of the first task at or after `k` whose id is `id`.
fn find_index_from(ts: &Vec<Task>, id: &String, k: usize) -> (r: Option<usize>)
    ensures
        r matches Some(i) ==> i < ts.len(),
        find_task_from(ts@, id@, k as int) matches Some(i) ==> k <= i < ts.len(),
        match find_task_from(ts@, id@, k as int) {
            Some(i) => r matches Some(j) && j as int == i,
            None => r is None,
        },
{
    proof {
        lemma_find_task_range(ts@, id@, k as int);
    }
    let mut j = k;
    while j < ts.len()
        invariant
            k <= j <= ts.len() || (j == k && k > ts.len()),
            find_task_from(ts@, id@, j as int) == find_task_from(ts@, id@, k as int),
        decreases ts.len() - j,
    {
        if ts[j].id == *id {
            return Some(j);
        }
        j += 1;
    }
    None
}

/// Index of the first task whose id is `id`.
fn find_index(ts: &Vec<Task>, id: &str) -> (r: Option<usize>)
    ensures
        r matches Some(i) ==> i < ts.len(),
        match find_task(ts@, id@) {
            Some(i) => r matches Some(j) && j as int == i,
            None => r is None,
        },
{
    let key = string_from(id);
    proof {
        lemma_find_task_range(ts@, id@, 0);
    }
    find_index_from(ts, &key, 0)
}

/// Whether every dependency of task `i` exists and is done.
fn deps_done_exec(ts: &Vec<Task>, i: usize) -> (r: bool)
    requires
        i < ts.len(),
    ensures
        r == deps_done(ts@, i as int),
{
    let deps = &ts[i].depends_on;
    let mut k: usize = 0;
    while k < deps.len()
        invariant
            k <= deps.len(),
            deps@ == ts@[i as int].depends_on@,
            forall|m: int| 0 <= m < k ==> dep_done(ts@, #[trigger] deps_of(ts@[i as int])[m]),
        decreases deps.len() - k,
    {
        assert(deps_of(ts@[i as int])[k as int] == deps@[k as int]@);
        proof {
            lemma_find_task_range(ts@, deps@[k as int]@, 0);
        }
        match find_index_from(ts, &deps[k], 0) {
            None => {
                return false;
            },
            Some(j) => {
                if !status_eq(ts[j].status, TaskStatus::Done) {
                    return false;
                }
            },
        }
        k += 1;
    }
    true
}

impl TaskGraph {
    pub fn new() -> (r: Self)
        ensures
            r.tasks@.len() == 0,
    {
        TaskGraph { tasks: Vec::new() }
    }

    /// Add a task without validation. Call validate() after adding all tasks.
    pub fn add_task(&mut self, task: Task)
        ensures
            final(self).tasks@ == old(self).tasks@.push(task),
    {
        self.tasks.push(task);
    }

    /// Validate the full graph: unique IDs, deps exist, no cycles.
    pub fn validate(&self) -> (r: Result<(), String>)
        ensures
            unit_result_view(r) == spec_validate(self.tasks@),
    {
        validate_tasks(&self.tasks)
    }

    /// The first task with id `id`.
    pub fn get(&self, id: &str) -> (r: Option<&Task>)
        ensures
            match find_task(self.tasks@, id@) {
                Some(i) => r matches Some(t) && *t == self.tasks@[i],
                None => r is None,
            },
    {
        match find_index(&self.tasks, id) {
            Some(i) => Some(&self.tasks[i]),
            None => None,
        }
    }

    /// Whether setting status `status` on task `id` would push its attempt
    /// counter past `u32::MAX` (which `set_status` may not be asked to do).
    pub fn attempts_would_overflow(&self, id: &str, status: TaskStatus) -> (r: bool)
        ensures
            r == attempts_would_overflow(self.tasks@, id@, status),
    {
        match find_index(&self.tasks, id) {
            Some(i) => status_eq(self.tasks[i].status, TaskStatus::Active) && status_eq(
                status,
                TaskStatus::Failed,
            ) && self.tasks[i].attempts == u32::MAX,
            None => false,
        }
    }

    /// The first task with id `id`, to change in place.
    pub fn get_mut(&mut self, id: &str) -> (r: Option<&mut Task>)
        ensures
            match find_task(old(self).tasks@, id@) {
                Some(i) => r is Some && *r->0 == old(self).tasks@[i] && final(self).tasks@
                    == old(self).tasks@.update(i, *final(r->0)),
                None => r is None && final(self).tasks@ == old(self).tasks@,
            },
    {
        match find_index(&self.tasks, id) {
            Some(i) => Some(&mut self.tasks[i]),
            None => None,
        }
    }

    /// Returns the ID of the next task that can run (Pending + all deps Done).
    pub fn next_runnable(&self) -> (r: Option<String>)
        ensures
            match first_runnable_from(self.tasks@, 0) {
                Some(i) => r matches Some(s) && s@ == self.tasks@[i].id@,
                None => r is None,
            },
    {
        let mut k: usize = 0;
        while k < self.tasks.len()
            invariant
                k <= self.tasks.len(),
                first_runnable_from(self.tasks@, k as int) == first_runnable_from(self.tasks@, 0),
            decreases self.tasks.len() - k,
        {
            if status_eq(self.tasks[k].status, TaskStatus::Pending) && deps_done_exec(&self.tasks, k) {
                return Some(self.tasks[k].id.clone());
            }
            k += 1;
        }
        None
    }

    /// Every task is done or skipped.
    pub fn all_done(&self) -> (r: bool)
        ensures
            r == spec_all_done(self.tasks@),
    {
        let mut k: usize = 0;
        while k < self.tasks.len()
            invariant
                k <= self.tasks.len(),
                forall|m: int|
                    0 <= m < k ==> (#[trigger] self.tasks@[m].status == TaskStatus::Done
                        || self.tasks@[m].status == TaskStatus::Skipped),
            decreases self.tasks.len() - k,
        {
            let s = self.tasks[k].status;
            if !(status_eq(s, TaskStatus::Done) || status_eq(s, TaskStatus::Skipped)) {
                return false;
            }
            k += 1;
        }
        true
    }

    /// `(number of done tasks, number of tasks)`.
    pub fn progress(&self) -> (r: (usize, usize))
        ensures
            r.0 == count_status(self.tasks@, TaskStatus::Done),
            r.1 == self.tasks@.len(),
    {
        let mut done: usize = 0;
        let mut k: usize = 0;
        while k < self.tasks.len()
            invariant
                k <= self.tasks.len(),
                done == count_status(self.tasks@.subrange(0, k as int), TaskStatus::Done),
                done <= k,
            decreases self.tasks.len() - k,
        {
            assert(self.tasks@.subrange(0, k + 1).drop_last() =~= self.tasks@.subrange(0, k as int));
            if status_eq(self.tasks[k].status, TaskStatus::Done) {
                done += 1;
            }
            k += 1;
        }
        assert(self.tasks@.subrange(0, self.tasks@.len() as int) =~= self.tasks@);
        (done, self.tasks.len())
    }

    /// Re-derive blocked statuses: pending tasks with unfinished
    /// dependencies become blocked; blocked tasks whose dependencies are
    /// all done become pending.
    pub fn recompute_blocked_status(&mut self)
        ensures
            is_recomputed(old(self).tasks@, final(self).tasks@),
    {
        let ghost orig = self.tasks@;
        let mut k: usize = 0;
        while k < self.tasks.len()
            invariant
                k <= self.tasks.len(),
                self.tasks@.len() == orig.len(),
                forall|i: int|
                    0 <= i < k ==> #[trigger] self.tasks@[i] == (Task {
                        status: recomputed_status(orig, i),
                        ..orig[i]
                    }),
                forall|i: int| k <= i < orig.len() ==> #[trigger] self.tasks@[i] == orig[i],
                forall|i: int| 0 <= i < orig.len() ==> (#[trigger] self.tasks@[i].status == TaskStatus::Done <==> orig[i].status == TaskStatus::Done),
                forall|i: int| 0 <= i < orig.len() ==> #[trigger] self.tasks@[i].id == orig[i].id,
                forall|i: int| 0 <= i < orig.len() ==> #[trigger] self.tasks@[i].depends_on == orig[i].depends_on,
            decreases self.tasks.len() - k,
        {
            proof {
                lemma_deps_done_same(orig, self.tasks@, k as int);
            }
            let done = deps_done_exec(&self.tasks, k);
            let s = self.tasks[k].status;
            let ns = if status_eq(s, TaskStatus::Pending) && !done {
                TaskStatus::Blocked
            } else if status_eq(s, TaskStatus::Blocked) && done {
                TaskStatus::Pending
            } else {
                s
            };
            self.tasks[k].status = ns;
            k += 1;
        }
    }

    /// Set the status of the task with id `id`, enforcing the allowed
    /// transitions, at most one active task, and the retry limit; a task
    /// that fails from active counts one more attempt. Blocked statuses are
    /// recomputed afterwards. On error nothing changes.
    pub fn set_status(&mut self, id: &str, status: TaskStatus) -> (r: Result<(), String>)
        requires
            !attempts_would_overflow(old(self).tasks@, id@, status),
        ensures
            match spec_set_status(old(self).tasks@, id@, status) {
                Err(m) => r matches Err(e) && e@ == m && final(self).tasks@ == old(self).tasks@,
                Ok(i) => r is Ok && is_recomputed(
                    old(self).tasks@.update(i, after_status_change(old(self).tasks@[i], status)),
                    final(self).tasks@,
                ),
            },
    {
        // Enforce max 1 active task at a time
        if status_eq(status, TaskStatus::Active) {
            let mut active: usize = 0;
            let mut k: usize = 0;
            while k < self.tasks.len()
                invariant
                    k <= self.tasks.len(),
                    active == count_other_active(self.tasks@.subrange(0, k as int), id@),
                    active <= k,
                decreases self.tasks.len() - k,
            {
                assert(self.tasks@.subrange(0, k + 1).drop_last() =~= self.tasks@.subrange(0, k as int));
                if status_eq(self.tasks[k].status, TaskStatus::Active) && !crate::text::string_eq_str(&self.tasks[k].id, id) {
                    active += 1;
                }
                k += 1;
            }
            assert(self.tasks@.subrange(0, self.tasks@.len() as int) =~= self.tasks@);
            if active >= 1 {
                let mut m = string_from("Cannot activate '");
                append_str(&mut m, id);
                append_str(&mut m, "': max 1 active task at a time");
                return Err(m);
            }
        }
        let i = match find_index(&self.tasks, id) {
            Some(i) => i,
            None => {
                let mut m = string_from("Task '");
                append_str(&mut m, id);
                append_str(&mut m, "' not found");
                return Err(m);
            },
        };
        let cur = self.tasks[i].status;
        // Reject retry if attempts exhausted
        if status_eq(cur, TaskStatus::Failed) && status_eq(status, TaskStatus::Active) {
            if self.tasks[i].attempts >= self.tasks[i].max_attempts {
                let mut m = string_from("Task '");
                append_str(&mut m, id);
                append_str(&mut m, "' exhausted ");
                push_decimal(&mut m, self.tasks[i].max_attempts as u64);
                append_str(&mut m, " retries");
                return Err(m);
            }
        }
        // Validate transition
        if !is_valid_transition(&cur, &status) {
            let mut m = string_from("Invalid transition for '");
            append_str(&mut m, id);
            append_str(&mut m, "': ");
            append_str(&mut m, status_text(cur));
            append_str(&mut m, " → ");
            append_str(&mut m, status_text(status));
            return Err(m);
        }
        // Track retry attempts
        if status_eq(cur, TaskStatus::Active) && status_eq(status, TaskStatus::Failed) {
            self.tasks[i].attempts = self.tasks[i].attempts + 1;
        }
        self.tasks[i].status = status;
        assert(self.tasks@ =~= old(self).tasks@.update(i as int, after_status_change(old(self).tasks@[i as int], status)));
        self.recompute_blocked_status();
        Ok(())
    }
}

impl TaskGraph {
    /// Apply a worker's status report to task `id` (`spec_report_status`):
    /// a pending task reported done becomes done; any other report goes
    /// through `set_status`. Blocked statuses are recomputed afterwards; on
    /// error nothing changes.
    pub fn report_status(&mut self, id: &str, status: TaskStatus) -> (r: Result<(), String>)
        requires
            !attempts_would_overflow(old(self).tasks@, id@, status),
        ensures
            match spec_report_status(old(self).tasks@, id@, status) {
                Err(m) => r matches Err(e) && e@ == m && final(self).tasks@ == old(self).tasks@,
                Ok(i) => r is Ok && is_recomputed(
                    old(self).tasks@.update(i, after_status_change(old(self).tasks@[i], status)),
                    final(self).tasks@,
                ),
            },
    {
        if status_eq(status, TaskStatus::Done) {
            match find_index(&self.tasks, id) {
                Some(i) => {
                    if status_eq(self.tasks[i].status, TaskStatus::Pending) {
                        self.tasks[i].status = TaskStatus::Done;
                        assert(self.tasks@ =~= old(self).tasks@.update(
                            i as int,
                            after_status_change(old(self).tasks@[i as int], status),
                        ));
                        self.recompute_blocked_status();
                        return Ok(());
                    }
                },
                None => {},
            }
        }
        self.set_status(id, status)
    }
}

// ───────────────────────────── lemmas ─────────────────────────────

proof fn lemma_first_dup_none(ts: Seq<Task>, j: int)
    requires
        0 <= j,
        first_dup_from(ts, j) is None,
    ensures
        forall|a: int, b: int| 0 <= a < b < ts.len() && j <= b ==> ts[a].id@ != ts[b].id@,
    decreases ts.len() - j,
{
    if j < ts.len() {
        assert(!exists|i: int| 0 <= i < j && #[trigger] ts[i].id@ == ts[j].id@);
        lemma_first_dup_none(ts, j + 1);
        assert forall|a: int, b: int| 0 <= a < b < ts.len() && j <= b implies ts[a].id@ != ts[b].id@ by {
            if b == j {
                if ts[a].id@ == ts[b].id@ {
                    assert(0 <= a < j && ts[a].id@ == ts[j].id@);
                }
            }
        }
    }
}

proof fn lemma_first_missing_dep_none(ts: Seq<Task>, i: int, k: int)
    requires
        0 <= i < ts.len(),
        0 <= k,
        first_missing_dep(ts, i, k) is None,
    ensures
        forall|m: int| k <= m < deps_of(ts[i]).len() ==> find_task(ts, #[trigger] deps_of(ts[i])[m]) is Some,
    decreases deps_of(ts[i]).len() - k,
{
    if k < deps_of(ts[i]).len() {
        lemma_first_missing_dep_none(ts, i, k + 1);
    }
}

proof fn lemma_first_missing_none(ts: Seq<Task>, i: int)
    requires
        0 <= i,
        first_missing_from(ts, i) is None,
    ensures
        forall|a: int, k: int|
            i <= a < ts.len() && 0 <= k < deps_of(ts[a]).len() ==> find_task(
                ts,
                #[trigger] deps_of(ts[a])[k],
            ) is Some,
    decreases ts.len() - i,
{
    if i < ts.len() {
        lemma_first_missing_dep_none(ts, i, 0);
        lemma_first_missing_none(ts, i + 1);
    }
}

proof fn lemma_all_false(m: Seq<bool>)
    requires
        forall|i: int| 0 <= i < m.len() ==> !#[trigger] m[i],
    ensures
        num_true(m) == 0,
    decreases m.len(),
{
    if m.len() > 0 {
        lemma_all_false(m.drop_last());
    }
}

proof fn lemma_num_true_update(m: Seq<bool>, i: int)
    requires
        0 <= i < m.len(),
        !m[i],
    ensures
        num_true(m.update(i, true)) == num_true(m) + 1,
    decreases m.len(),
{
    let u = m.update(i, true);
    if i == m.len() - 1 {
        assert(u.drop_last() =~= m.drop_last());
    } else {
        assert(u.drop_last() =~= m.drop_last().update(i, true));
        lemma_num_true_update(m.drop_last(), i);
    }
}

proof fn lemma_num_true_bound(m: Seq<bool>)
    ensures
        num_true(m) <= m.len(),
        num_true(m) == m.len() ==> forall|i: int| 0 <= i < m.len() ==> #[trigger] m[i],
        (forall|i: int| 0 <= i < m.len() ==> #[trigger] m[i]) ==> num_true(m) == m.len(),
    decreases m.len(),
{
    if m.len() > 0 {
        lemma_num_true_bound(m.drop_last());
        if forall|i: int| 0 <= i < m.len() ==> #[trigger] m[i] {
            assert forall|i: int| 0 <= i < m.drop_last().len() implies #[trigger] m.drop_last()[i] by {
                assert(m[i]);
            }
            assert(m[m.len() - 1]);
        }
        if num_true(m) == m.len() {
            assert forall|i: int| 0 <= i < m.len() implies #[trigger] m[i] by {
                if i < m.len() - 1 {
                    assert(m.drop_last()[i] == m[i]);
                }
            }
        }
    }
}

/// When every unmarked task depends on an unmarked task, no ranking exists.
proof fn lemma_stuck_rank_bound(ts: Seq<Task>, dep_idx: Seq<Vec<usize>>, marked: Seq<bool>, rank: Seq<nat>, v: nat)
    requires
        ranked(ts, rank),
        marked.len() == ts.len(),
        dep_idx.len() == ts.len(),
        forall|i: int, k: int|
            0 <= i < ts.len() && 0 <= k < deps_of(ts[i]).len() ==> find_task(ts, deps_of(ts[i])[k])
                == Some(#[trigger] dep_idx[i]@[k] as int),
        forall|i: int| 0 <= i < ts.len() ==> #[trigger] dep_idx[i]@.len() == deps_of(ts[i]).len(),
        forall|i: int|
            0 <= i < ts.len() && !#[trigger] marked[i] ==> exists|k: int|
                0 <= k < dep_idx[i]@.len() && !marked[#[trigger] dep_idx[i]@[k] as int],
    ensures
        forall|i: int| 0 <= i < ts.len() && !#[trigger] marked[i] ==> rank[i] >= v,
    decreases v,
{
    if v > 0 {
        lemma_stuck_rank_bound(ts, dep_idx, marked, rank, (v - 1) as nat);
        assert forall|i: int| 0 <= i < ts.len() && !#[trigger] marked[i] implies rank[i] >= v by {
            let k = choose|k: int| 0 <= k < dep_idx[i]@.len() && !marked[#[trigger] dep_idx[i]@[k] as int];
            let j = dep_idx[i]@[k] as int;
            assert(find_task(ts, deps_of(ts[i])[k]) == Some(j));
            lemma_find_task_range(ts, deps_of(ts[i])[k], 0);
            assert(rank[j] < rank[i]);
            assert(!marked[j]);
        }
    }
}

pub proof fn lemma_find_task_range(ts: Seq<Task>, id: Seq<char>, k: int)
    requires
        0 <= k,
    ensures
        find_task_from(ts, id, k) matches Some(i) ==> k <= i < ts.len() && ts[i].id@ == id,
        find_task_from(ts, id, k) is None ==> forall|j: int| k <= j < ts.len() ==> #[trigger] ts[j].id@ != id,
    decreases ts.len() - k,
{
    if k < ts.len() && ts[k].id@ != id {
        lemma_find_task_range(ts, id, k + 1);
    }
}

pub proof fn lemma_find_task_same(a: Seq<Task>, b: Seq<Task>, id: Seq<char>, k: int)
    requires
        a.len() == b.len(),
        forall|i: int| 0 <= i < a.len() ==> #[trigger] a[i].id == b[i].id,
    ensures
        find_task_from(a, id, k) == find_task_from(b, id, k),
    decreases a.len() - k,
{
    if 0 <= k < a.len() {
        assert(a[k].id == b[k].id);
        lemma_find_task_same(a, b, id, k + 1);
    }
}

/// Dependencies are done in `b` exactly when in `a`, when the two graphs
/// agree on ids, dependencies and which tasks are done.
proof fn lemma_deps_done_same(a: Seq<Task>, b: Seq<Task>, i: int)
    requires
        a.len() == b.len(),
        0 <= i < a.len(),
        forall|j: int| 0 <= j < a.len() ==> #[trigger] a[j].id == b[j].id,
        forall|j: int| 0 <= j < a.len() ==> #[trigger] a[j].depends_on == b[j].depends_on,
        forall|j: int|
            0 <= j < a.len() ==> (#[trigger] a[j].status == TaskStatus::Done <==> b[j].status
                == TaskStatus::Done),
    ensures
        deps_done(a, i) == deps_done(b, i),
{
    assert(a[i].depends_on == b[i].depends_on);
    assert forall|k: int| 0 <= k < deps_of(a[i]).len() implies dep_done(a, #[trigger] deps_of(a[i])[k]) == dep_done(b, deps_of(b[i])[k]) by {
        lemma_find_task_same(a, b, deps_of(a[i])[k], 0);
        let d = deps_of(a[i])[k];
        lemma_find_task_range(a, d, 0);
        match find_task(a, d) {
            Some(j) => {
                assert(a[j].status == TaskStatus::Done <==> b[j].status == TaskStatus::Done);
            },
            None => {},
        }
    }
}


// ───────────────────────────── laws ─────────────────────────────

/// At most one task is active.
pub open spec fn at_most_one_active(ts: Seq<Task>) -> bool {
    forall|i: int, j: int|
        0 <= i < ts.len() && 0 <= j < ts.len() && #[trigger] ts[i].status == TaskStatus::Active
            && #[trigger] ts[j].status == TaskStatus::Active ==> i == j
}

proof fn lemma_no_other_active(ts: Seq<Task>, id: Seq<char>)
    requires
        count_other_active(ts, id) == 0,
    ensures
        forall|k: int| 0 <= k < ts.len() && #[trigger] ts[k].status == TaskStatus::Active ==> ts[k].id@ == id,
    decreases ts.len(),
{
    if ts.len() > 0 {
        lemma_no_other_active(ts.drop_last(), id);
        assert forall|k: int| 0 <= k < ts.len() && #[trigger] ts[k].status == TaskStatus::Active implies ts[k].id@ == id by {
            if k < ts.len() - 1 {
                assert(ts.drop_last()[k] == ts[k]);
            }
        }
    }
}

/// After recomputation, pending tasks have all dependencies done and
/// blocked tasks do not: blocked status always reflects the dependencies.
pub proof fn lemma_recompute_consistent(old: Seq<Task>, new: Seq<Task>)
    requires
        is_recomputed(old, new),
    ensures
        forall|i: int|
            0 <= i < new.len() && #[trigger] new[i].status == TaskStatus::Pending ==> deps_done(new, i),
        forall|i: int|
            0 <= i < new.len() && #[trigger] new[i].status == TaskStatus::Blocked ==> !deps_done(new, i),
        forall|i: int|
            0 <= i < new.len() ==> (#[trigger] new[i].status == TaskStatus::Active <==> old[i].status == TaskStatus::Active),
{
    assert forall|j: int| 0 <= j < old.len() implies #[trigger] old[j].id == new[j].id && old[j].depends_on == new[j].depends_on
        && (old[j].status == TaskStatus::Done <==> new[j].status == TaskStatus::Done) by {
        assert(new[j] == (Task { status: recomputed_status(old, j), ..old[j] }));
    }
    assert forall|i: int| 0 <= i < new.len() implies (#[trigger] new[i].status == TaskStatus::Pending ==> deps_done(new, i))
        && (new[i].status == TaskStatus::Blocked ==> !deps_done(new, i)) by {
        assert(new[i] == (Task { status: recomputed_status(old, i), ..old[i] }));
        assert forall|j: int| 0 <= j < old.len() implies #[trigger] old[j].id == new[j].id by {
            assert(new[j] == (Task { status: recomputed_status(old, j), ..old[j] }));
        }
        assert forall|j: int| 0 <= j < old.len() implies #[trigger] old[j].depends_on == new[j].depends_on by {
            assert(new[j] == (Task { status: recomputed_status(old, j), ..old[j] }));
        }
        assert forall|j: int| 0 <= j < old.len() implies (#[trigger] old[j].status == TaskStatus::Done <==> new[j].status == TaskStatus::Done) by {
            assert(new[j] == (Task { status: recomputed_status(old, j), ..old[j] }));
        }
        lemma_deps_done_same(old, new, i);
    }
    assert forall|i: int| 0 <= i < new.len() implies (#[trigger] new[i].status == TaskStatus::Active <==> old[i].status == TaskStatus::Active) by {
        assert(new[i] == (Task { status: recomputed_status(old, i), ..old[i] }));
    }
}

/// With unique ids, a successful status change keeps at most one task
/// active.
pub proof fn lemma_set_status_keeps_single_active(old: Seq<Task>, id: Seq<char>, s: TaskStatus, new: Seq<Task>)
    requires
        ids_unique(old),
        at_most_one_active(old),
        spec_set_status(old, id, s) is Ok,
        is_recomputed(old.update(spec_set_status(old, id, s)->Ok_0, after_status_change(old[spec_set_status(old, id, s)->Ok_0], s)), new),
    ensures
        at_most_one_active(new),
{
    let i = spec_set_status(old, id, s)->Ok_0;
    lemma_find_task_range(old, id, 0);
    let mid = old.update(i, after_status_change(old[i], s));
    lemma_recompute_consistent(mid, new);
    if s == TaskStatus::Active {
        lemma_no_other_active(old, id);
        assert forall|a: int, b: int|
            0 <= a < new.len() && 0 <= b < new.len() && #[trigger] new[a].status == TaskStatus::Active
                && #[trigger] new[b].status == TaskStatus::Active implies a == b by {
            assert(mid[a].status == TaskStatus::Active);
            assert(mid[b].status == TaskStatus::Active);
            if a != i {
                assert(old[a].status == TaskStatus::Active);
                assert(old[a].id@ == id);
                assert(old[i].id@ == id);
            }
            if b != i {
                assert(old[b].status == TaskStatus::Active);
                assert(old[b].id@ == id);
                assert(old[i].id@ == id);
            }
        }
    } else {
        assert forall|a: int, b: int|
            0 <= a < new.len() && 0 <= b < new.len() && #[trigger] new[a].status == TaskStatus::Active
                && #[trigger] new[b].status == TaskStatus::Active implies a == b by {
            assert(mid[a].status == TaskStatus::Active);
            assert(mid[b].status == TaskStatus::Active);
            assert(old[a].status == TaskStatus::Active);
            assert(old[b].status == TaskStatus::Active);
        }
    }
}

proof fn lemma_first_runnable(ts: Seq<Task>, k: int)
    requires
        0 <= k,
    ensures
        first_runnable_from(ts, k) matches Some(i) ==> k <= i < ts.len() && runnable(ts, i) && forall|j: int| k <= j < i ==> !runnable(ts, j),
        first_runnable_from(ts, k) is None ==> forall|j: int| k <= j < ts.len() ==> !runnable(ts, j),
    decreases ts.len() - k,
{
    if k < ts.len() && !runnable(ts, k) {
        lemma_first_runnable(ts, k + 1);
    }
}

/// The task `next_runnable` picks is pending with all dependencies done,
/// and it is the first such task; when it picks none, no task can run.
pub proof fn lemma_next_runnable_is_runnable(ts: Seq<Task>)
    ensures
        first_runnable_from(ts, 0) matches Some(i) ==> 0 <= i < ts.len() && ts[i].status == TaskStatus::Pending && deps_done(ts, i),
        first_runnable_from(ts, 0) is None ==> forall|j: int| 0 <= j < ts.len() ==> !runnable(ts, j),
{
    lemma_first_runnable(ts, 0);
}

/// A graph validates exactly when its ids are pairwise distinct, every
/// dependency names a task, and some ranking orders the dependencies (no
/// cycle); a repeated dependency alone is no reason to refuse it.
pub proof fn lemma_valid_graph_is_a_dag(ts: Seq<Task>)
    ensures
        spec_validate(ts) is Ok <==> (ids_unique(ts) && deps_exist(ts) && acyclic(ts)),
{
    if ids_unique(ts) {
        lemma_no_dup_found(ts, 0);
        if deps_exist(ts) {
            lemma_no_missing_found(ts, 0);
        }
    }
    if spec_validate(ts) is Ok {
        lemma_first_dup_none(ts, 0);
        lemma_first_missing_none(ts, 0);
    }
}

proof fn lemma_first_dup_some(ts: Seq<Task>, j: int)
    requires
        0 <= j,
    ensures
        first_dup_from(ts, j) matches Some(d) ==> j <= d < ts.len() && exists|i: int| 0 <= i < d && #[trigger] ts[i].id@ == ts[d].id@,
    decreases ts.len() - j,
{
    if j < ts.len() && !(exists|i: int| 0 <= i < j && #[trigger] ts[i].id@ == ts[j].id@) {
        lemma_first_dup_some(ts, j + 1);
    }
}

proof fn lemma_first_missing_dep_some(ts: Seq<Task>, i: int, k: int)
    requires
        0 <= i < ts.len(),
        0 <= k,
    ensures
        first_missing_dep(ts, i, k) matches Some(m) ==> k <= m < deps_of(ts[i]).len() && find_task(ts, deps_of(ts[i])[m]) is None,
    decreases deps_of(ts[i]).len() - k,
{
    if k < deps_of(ts[i]).len() && find_task(ts, deps_of(ts[i])[k]) is Some {
        lemma_first_missing_dep_some(ts, i, k + 1);
    }
}

proof fn lemma_first_missing_some(ts: Seq<Task>, i: int)
    requires
        0 <= i,
    ensures
        first_missing_from(ts, i) matches Some((a, m)) ==> i <= a < ts.len() && 0 <= m < deps_of(ts[a]).len()
            && find_task(ts, deps_of(ts[a])[m]) is None,
    decreases ts.len() - i,
{
    if i < ts.len() {
        lemma_first_missing_dep_some(ts, i, 0);
        if first_missing_dep(ts, i, 0) is None {
            lemma_first_missing_some(ts, i + 1);
        }
    }
}

/// Validation names the first fault it finds: a repeated id first (naming
/// a task whose id an earlier task has), then a dependency that names no
/// task (naming that task and dependency), then a cycle.
pub proof fn lemma_validate_errors(ts: Seq<Task>)
    ensures
        !ids_unique(ts) ==> (spec_validate(ts) matches Err(msg) && exists|j: int|
            0 <= j < ts.len() && msg == "Duplicate task ID: "@ + (#[trigger] ts[j]).id@ && exists|i: int|
                0 <= i < j && ts[i].id@ == ts[j].id@),
        ids_unique(ts) && !deps_exist(ts) ==> (spec_validate(ts) matches Err(msg) && exists|a: int, m: int|
            0 <= a < ts.len() && 0 <= m < deps_of(ts[a]).len() && find_task(ts, #[trigger] deps_of(ts[a])[m]) is None
                && msg == "Task '"@ + ts[a].id@ + "' depends on non-existent '"@ + deps_of(ts[a])[m] + "'"@),
        ids_unique(ts) && deps_exist(ts) && !acyclic(ts) ==> spec_validate(ts) == Err::<(), Seq<char>>(
            "Task graph contains a cycle"@,
        ),
{
    lemma_first_dup_some(ts, 0);
    lemma_first_missing_some(ts, 0);
    if first_dup_from(ts, 0) is None {
        lemma_first_dup_none(ts, 0);
        if first_missing_from(ts, 0) is None {
            lemma_first_missing_none(ts, 0);
        } else {
            let (a, m) = first_missing_from(ts, 0)->Some_0;
            assert(find_task(ts, deps_of(ts[a])[m]) is None);
        }
    } else {
        let d = first_dup_from(ts, 0)->Some_0;
        assert(0 <= d < ts.len());
    }
    if ids_unique(ts) {
        lemma_no_dup_found(ts, 0);
        if deps_exist(ts) {
            lemma_no_missing_found(ts, 0);
        }
    }
}

proof fn lemma_no_dup_found(ts: Seq<Task>, j: int)
    requires
        0 <= j,
        ids_unique(ts),
    ensures
        first_dup_from(ts, j) is None,
    decreases ts.len() - j,
{
    if j < ts.len() {
        assert(!exists|i: int| 0 <= i < j && #[trigger] ts[i].id@ == ts[j].id@);
        lemma_no_dup_found(ts, j + 1);
    }
}

proof fn lemma_no_missing_dep_found(ts: Seq<Task>, i: int, k: int)
    requires
        0 <= i < ts.len(),
        0 <= k,
        deps_exist(ts),
    ensures
        first_missing_dep(ts, i, k) is None,
    decreases deps_of(ts[i]).len() - k,
{
    if k < deps_of(ts[i]).len() {
        assert(find_task(ts, deps_of(ts[i])[k]) is Some);
        lemma_no_missing_dep_found(ts, i, k + 1);
    }
}

proof fn lemma_no_missing_found(ts: Seq<Task>, i: int)
    requires
        0 <= i,
        deps_exist(ts),
    ensures
        first_missing_from(ts, i) is None,
    decreases ts.len() - i,
{
    if i < ts.len() {
        lemma_no_missing_dep_found(ts, i, 0);
        lemma_no_missing_found(ts, i + 1);
    }
}


/// A failed task that has used all its attempts cannot be made active
/// again: the retry is refused.
pub proof fn lemma_exhausted_task_cannot_retry(ts: Seq<Task>, id: Seq<char>)
    requires
        find_task(ts, id) matches Some(i) && ts[i].status == TaskStatus::Failed && ts[i].attempts
            >= ts[i].max_attempts,
    ensures
        spec_set_status(ts, id, TaskStatus::Active) is Err,
{
}

/// The documented task life cycle: a pending task may start or be
/// skipped, an active task finishes or fails, a failed task may be
/// retried, and a blocked task becomes pending again; nothing else is a
/// valid status change (done and skipped tasks are final).
pub proof fn lemma_task_transition_table(from: TaskStatus, to: TaskStatus)
    ensures
        spec_valid_transition(from, to) <==> ((from, to) == (TaskStatus::Pending, TaskStatus::Active) || (from, to) == (
            TaskStatus::Pending,
            TaskStatus::Skipped,
        ) || (from, to) == (TaskStatus::Active, TaskStatus::Done) || (from, to) == (TaskStatus::Active, TaskStatus::Failed)
            || (from, to) == (TaskStatus::Failed, TaskStatus::Active) || (from, to) == (
            TaskStatus::Blocked,
            TaskStatus::Pending,
        )),
        from == TaskStatus::Done || from == TaskStatus::Skipped ==> !spec_valid_transition(from, to),
{
}

} // verus!
