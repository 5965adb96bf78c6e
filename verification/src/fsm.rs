//! Per-agent phase state machines.
use vstd::prelude::*;
use crate::text::{append_str, debug_list, quoted, quoted_join, str_eq, str_views, string_from};
use crate::types::{
    agent_display, agent_name, agent_of, phase_name, FuxiPhase, HongjunPhase, OmdAgent, OmdPhase,
    PanguPhase, TongtianPhase,
};

verus! {

// ───────────────────────────── specification ─────────────────────────────

/// The phase an agent starts in.
pub open spec fn spec_initial_phase(a: OmdAgent) -> OmdPhase {
    match a {
        OmdAgent::Tongtian => OmdPhase::Tongtian(TongtianPhase::Explore),
        OmdAgent::Fuxi => OmdPhase::Fuxi(FuxiPhase::Interview),
        OmdAgent::Pangu => OmdPhase::Pangu(PanguPhase::LoadPlan),
        OmdAgent::Hongjun => OmdPhase::Hongjun(HongjunPhase::Intake),
    }
}

/// Names of the phases that may follow phase `p`.
pub open spec fn spec_valid_next(p: OmdPhase) -> Seq<Seq<char>> {
    match p {
        OmdPhase::Tongtian(t) => match t {
            TongtianPhase::Explore => seq!["Execute"@],
            TongtianPhase::Execute => seq!["Verify"@],
            TongtianPhase::Verify => seq!["Execute"@, "Done"@],
            TongtianPhase::Done => seq![],
        },
        OmdPhase::Fuxi(f) => match f {
            FuxiPhase::Interview => seq!["Explore"@],
            FuxiPhase::Explore => seq!["Architect"@],
            FuxiPhase::Architect => seq!["Plan"@],
            FuxiPhase::Plan => seq!["Done"@],
            FuxiPhase::Done => seq![],
        },
        OmdPhase::Pangu(g) => match g {
            PanguPhase::LoadPlan => seq!["Decompose"@],
            PanguPhase::Decompose => seq!["Delegate"@],
            PanguPhase::Delegate => seq!["Verify"@],
            PanguPhase::Verify => seq!["Delegate"@, "Done"@],
            PanguPhase::Done => seq![],
        },
        OmdPhase::Hongjun(h) => match h {
            HongjunPhase::Intake => seq!["Route"@],
            HongjunPhase::Route => seq!["Done"@],
            HongjunPhase::Done => seq![],
        },
    }
}

/// Names of all phases of agent `a`, in workflow order.
pub open spec fn spec_all_phase_names(a: OmdAgent) -> Seq<Seq<char>> {
    match a {
        OmdAgent::Tongtian => seq!["Explore"@, "Execute"@, "Verify"@, "Done"@],
        OmdAgent::Fuxi => seq!["Interview"@, "Explore"@, "Architect"@, "Plan"@, "Done"@],
        OmdAgent::Pangu => seq!["LoadPlan"@, "Decompose"@, "Delegate"@, "Verify"@, "Done"@],
        OmdAgent::Hongjun => seq!["Intake"@, "Route"@, "Done"@],
    }
}

/// The phase of agent `a` called `n` (the agent's last phase for other names).
pub open spec fn spec_resolve(a: OmdAgent, n: Seq<char>) -> OmdPhase {
    match a {
        OmdAgent::Tongtian => OmdPhase::Tongtian(
            if n == "Explore"@ {
                TongtianPhase::Explore
            } else if n == "Execute"@ {
                TongtianPhase::Execute
            } else if n == "Verify"@ {
                TongtianPhase::Verify
            } else {
                TongtianPhase::Done
            },
        ),
        OmdAgent::Fuxi => OmdPhase::Fuxi(
            if n == "Interview"@ {
                FuxiPhase::Interview
            } else if n == "Explore"@ {
                FuxiPhase::Explore
            } else if n == "Architect"@ {
                FuxiPhase::Architect
            } else if n == "Plan"@ {
                FuxiPhase::Plan
            } else {
                FuxiPhase::Done
            },
        ),
        OmdAgent::Pangu => OmdPhase::Pangu(
            if n == "LoadPlan"@ {
                PanguPhase::LoadPlan
            } else if n == "Decompose"@ {
                PanguPhase::Decompose
            } else if n == "Delegate"@ {
                PanguPhase::Delegate
            } else if n == "Verify"@ {
                PanguPhase::Verify
            } else {
                PanguPhase::Done
            },
        ),
        OmdAgent::Hongjun => OmdPhase::Hongjun(
            if n == "Intake"@ {
                HongjunPhase::Intake
            } else if n == "Route"@ {
                HongjunPhase::Route
            } else {
                HongjunPhase::Done
            },
        ),
    }
}

/// Message for a name that is no phase of agent `a`.
pub open spec fn msg_not_a_phase(target: Seq<char>, a: OmdAgent) -> Seq<char> {
    "'"@ + target + "' is not a valid phase for "@ + agent_name(a) + ". Valid: "@ + debug_list(
        spec_all_phase_names(a),
    )
}

/// Message for a phase that may not follow phase `p`.
pub open spec fn msg_bad_transition(p: OmdPhase, target: Seq<char>) -> Seq<char> {
    "Cannot transition from '"@ + phase_name(p) + "' to '"@ + target + "'. Valid next phases: "@
        + debug_list(spec_valid_next(p))
}

/// Outcome of asking the machine in phase `p` to move to `target`: the
/// new phase, or the error message.
pub open spec fn spec_transition(p: OmdPhase, target: Seq<char>) -> Result<OmdPhase, Seq<char>> {
    if !spec_all_phase_names(agent_of(p)).contains(target) {
        Err(msg_not_a_phase(target, agent_of(p)))
    } else if !spec_valid_next(p).contains(target) {
        Err(msg_bad_transition(p, target))
    } else {
        Ok(spec_resolve(agent_of(p), target))
    }
}

// ───────────────────────────── machine ─────────────────────────────

/// The workflow state machine of one agent.
pub struct OmdFsm {
    agent: OmdAgent,
    phase: OmdPhase,
}

impl OmdFsm {
    /// The phase always belongs to the machine's agent.
    #[verifier::type_invariant]
    spec fn phase_belongs_to_agent(self) -> bool {
        agent_of(self.phase) == self.agent
    }

    /// The machine's agent.
    pub closed spec fn spec_agent(&self) -> OmdAgent {
        self.agent
    }

    /// The machine's current phase.
    pub closed spec fn spec_phase(&self) -> OmdPhase {
        self.phase
    }

    /// A machine for `agent`, in the agent's first phase.
    pub fn new(agent: OmdAgent) -> (r: Self)
        ensures
            r.spec_agent() == agent,
            r.spec_phase() == spec_initial_phase(agent),
    {
        let phase = match agent {
            OmdAgent::Tongtian => OmdPhase::Tongtian(TongtianPhase::Explore),
            OmdAgent::Fuxi => OmdPhase::Fuxi(FuxiPhase::Interview),
            OmdAgent::Pangu => OmdPhase::Pangu(PanguPhase::LoadPlan),
            OmdAgent::Hongjun => OmdPhase::Hongjun(HongjunPhase::Intake),
        };
        OmdFsm { agent, phase }
    }

    /// A machine for `agent` placed in the phase called `name` (used when a
    /// session is resumed).
    pub fn with_phase(agent: OmdAgent, name: &str) -> (r: Result<Self, String>)
        ensures
            spec_all_phase_names(agent).contains(name@) ==> (r matches Ok(m) && m.spec_agent()
                == agent && m.spec_phase() == spec_resolve(agent, name@)),
            !spec_all_phase_names(agent).contains(name@) ==> (r matches Err(e) && e@
                == msg_not_a_phase(name@, agent)),
    {
        let all = all_names_of(agent);
        if !contains_name(&all, name) {
            return Err(not_a_phase_message(name, agent));
        }
        let phase = resolve(agent, name);
        Ok(OmdFsm { agent, phase })
    }

    pub fn agent(&self) -> (r: OmdAgent)
        ensures
            r == self.spec_agent(),
    {
        self.agent
    }

    /// The current phase, which always belongs to the machine's agent.
    pub fn phase(&self) -> (r: &OmdPhase)
        ensures
            *r == self.spec_phase(),
            agent_of(*r) == self.spec_agent(),
    {
        proof {
            use_type_invariant(self);
        }
        &self.phase
    }

    pub fn current_phase_name(&self) -> (r: &'static str)
        ensures
            r@ == phase_name(self.spec_phase()),
    {
        self.phase.name()
    }

    /// Move to phase `target` if it is a phase of this agent and may follow
    /// the current phase; otherwise report why not and stay put.
    pub fn try_transition(&mut self, target: &str) -> (r: Result<(), String>)
        ensures
            match spec_transition(old(self).spec_phase(), target@) {
                Ok(p) => r is Ok && final(self).spec_phase() == p,
                Err(m) => r matches Err(e) && e@ == m && final(self).spec_phase() == old(
                    self,
                ).spec_phase(),
            },
            final(self).spec_agent() == old(self).spec_agent(),
    {
        proof {
            use_type_invariant(&*self);
        }
        let all = self.all_phase_names();
        if !contains_name(&all, target) {
            return Err(not_a_phase_message(target, self.agent));
        }
        let valid = self.valid_next_phases();
        if !contains_name(&valid, target) {
            let mut m = string_from("Cannot transition from '");
            append_str(&mut m, self.current_phase_name());
            append_str(&mut m, "' to '");
            append_str(&mut m, target);
            append_str(&mut m, "'. Valid next phases: ");
            push_debug_list(&mut m, &valid);
            return Err(m);
        }
        let p = self.resolve_phase(target);
        proof {
            lemma_resolve_in_agent(self.agent, target@);
        }
        self.phase = p;
        Ok(())
    }

    /// Names of the phases that may follow the current one.
    pub fn valid_next_phases(&self) -> (r: Vec<&'static str>)
        ensures
            str_views(r@) == spec_valid_next(self.spec_phase()),
    {
        let r: Vec<&'static str> = match &self.phase {
            OmdPhase::Tongtian(p) => match p {
                TongtianPhase::Explore => vec!["Execute"],
                TongtianPhase::Execute => vec!["Verify"],
                TongtianPhase::Verify => vec!["Execute", "Done"],
                TongtianPhase::Done => vec![],
            },
            OmdPhase::Fuxi(p) => match p {
                FuxiPhase::Interview => vec!["Explore"],
                FuxiPhase::Explore => vec!["Architect"],
                FuxiPhase::Architect => vec!["Plan"],
                FuxiPhase::Plan => vec!["Done"],
                FuxiPhase::Done => vec![],
            },
            OmdPhase::Pangu(p) => match p {
                PanguPhase::LoadPlan => vec!["Decompose"],
                PanguPhase::Decompose => vec!["Delegate"],
                PanguPhase::Delegate => vec!["Verify"],
                PanguPhase::Verify => vec!["Delegate", "Done"],
                PanguPhase::Done => vec![],
            },
            OmdPhase::Hongjun(p) => match p {
                HongjunPhase::Intake => vec!["Route"],
                HongjunPhase::Route => vec!["Done"],
                HongjunPhase::Done => vec![],
            },
        };
        assert(str_views(r@) =~= spec_valid_next(self.spec_phase()));
        r
    }

    fn all_phase_names(&self) -> (r: Vec<&'static str>)
        ensures
            str_views(r@) == spec_all_phase_names(self.spec_agent()),
    {
        all_names_of(self.agent)
    }

    fn resolve_phase(&self, name: &str) -> (r: OmdPhase)
        ensures
            r == spec_resolve(self.spec_agent(), name@),
    {
        resolve(self.agent, name)
    }
}

fn all_names_of(a: OmdAgent) -> (r: Vec<&'static str>)
    ensures
        str_views(r@) == spec_all_phase_names(a),
{
    let r: Vec<&'static str> = match a {
        OmdAgent::Tongtian => vec!["Explore", "Execute", "Verify", "Done"],
        OmdAgent::Fuxi => vec!["Interview", "Explore", "Architect", "Plan", "Done"],
        OmdAgent::Pangu => vec!["LoadPlan", "Decompose", "Delegate", "Verify", "Done"],
        OmdAgent::Hongjun => vec!["Intake", "Route", "Done"],
    };
    assert(str_views(r@) =~= spec_all_phase_names(a));
    r
}

fn resolve(a: OmdAgent, name: &str) -> (r: OmdPhase)
    ensures
        r == spec_resolve(a, name@),
{
    match a {
        OmdAgent::Tongtian => OmdPhase::Tongtian(
            if str_eq(name, "Explore") {
                TongtianPhase::Explore
            } else if str_eq(name, "Execute") {
                TongtianPhase::Execute
            } else if str_eq(name, "Verify") {
                TongtianPhase::Verify
            } else {
                TongtianPhase::Done
            },
        ),
        OmdAgent::Fuxi => OmdPhase::Fuxi(
            if str_eq(name, "Interview") {
                FuxiPhase::Interview
            } else if str_eq(name, "Explore") {
                FuxiPhase::Explore
            } else if str_eq(name, "Architect") {
                FuxiPhase::Architect
            } else if str_eq(name, "Plan") {
                FuxiPhase::Plan
            } else {
                FuxiPhase::Done
            },
        ),
        OmdAgent::Pangu => OmdPhase::Pangu(
            if str_eq(name, "LoadPlan") {
                PanguPhase::LoadPlan
            } else if str_eq(name, "Decompose") {
                PanguPhase::Decompose
            } else if str_eq(name, "Delegate") {
                PanguPhase::Delegate
            } else if str_eq(name, "Verify") {
                PanguPhase::Verify
            } else {
                PanguPhase::Done
            },
        ),
        OmdAgent::Hongjun => OmdPhase::Hongjun(
            if str_eq(name, "Intake") {
                HongjunPhase::Intake
            } else if str_eq(name, "Route") {
                HongjunPhase::Route
            } else {
                HongjunPhase::Done
            },
        ),
    }
}

/// Whether `name` is one of `names`.
fn contains_name(names: &Vec<&'static str>, name: &str) -> (r: bool)
    ensures
        r == str_views(names@).contains(name@),
{
    let mut k: usize = 0;
    while k < names.len()
        invariant
            k <= names.len(),
            forall|m: int| 0 <= m < k ==> str_views(names@)[m] != name@,
        decreases names.len() - k,
    {
        if str_eq(names[k], name) {
            assert(str_views(names@)[k as int] == name@);
            return true;
        }
        k += 1;
    }
    false
}

/// Appends `["a", "b", ...]` for names that need no escaping.
pub(crate) fn push_debug_list(s: &mut String, items: &Vec<&'static str>)
    ensures
        final(s)@ == old(s)@ + debug_list(str_views(items@)),
{
    let ghost views = str_views(items@);
    let ghost s0 = s@;
    append_str(s, "[");
    proof {
        reveal_strlit("[");
        assert("["@ =~= seq!['[']);
    }
    let mut k: usize = 0;
    assert(views.subrange(0, 0) =~= Seq::<Seq<char>>::empty());
    while k < items.len()
        invariant
            k <= items.len(),
            views == str_views(items@),
            s@ == s0 + seq!['['] + quoted_join(views.subrange(0, k as int)),
        decreases items.len() - k,
    {
        let ghost before = s@;
        if k > 0 {
            append_str(s, ", ");
            proof {
                reveal_strlit(", ");
                assert(", "@ =~= seq![',', ' ']);
            }
        }
        append_str(s, "\"");
        append_str(s, items[k]);
        append_str(s, "\"");
        proof {
            reveal_strlit("\"");
            assert("\""@ =~= seq!['"']);
            let next = views.subrange(0, k + 1);
            assert(next.drop_last() =~= views.subrange(0, k as int));
            assert(next.last() == items@[k as int]@);
            if k == 0 {
                assert(next =~= seq![items@[k as int]@]);
                assert(quoted_join(views.subrange(0, 0)) =~= Seq::<char>::empty());
            }
            assert(s@ =~= s0 + seq!['['] + quoted_join(next));
        }
        k += 1;
    }
    append_str(s, "]");
    proof {
        reveal_strlit("]");
        assert("]"@ =~= seq![']']);
        assert(views.subrange(0, items.len() as int) =~= views);
        assert(s@ =~= s0 + debug_list(views));
    }
}

/// The message for a name that is no phase of agent `a`.
fn not_a_phase_message(target: &str, a: OmdAgent) -> (r: String)
    ensures
        r@ == msg_not_a_phase(target@, a),
{
    let mut m = string_from("'");
    append_str(&mut m, target);
    append_str(&mut m, "' is not a valid phase for ");
    append_str(&mut m, agent_display(a));
    append_str(&mut m, ". Valid: ");
    let all = all_names_of(a);
    push_debug_list(&mut m, &all);
    m
}

// ───────────────────────────── laws ─────────────────────────────

proof fn lemma_resolve_in_agent(a: OmdAgent, n: Seq<char>)
    ensures
        agent_of(spec_resolve(a, n)) == a,
{
}

/// Every phase that may follow `p` is a phase of the same agent, and
/// moving there lands on a phase of that name: a successful transition
/// leaves the machine in the requested phase.
pub proof fn lemma_transition_lands_on_target(p: OmdPhase, t: Seq<char>)
    requires
        spec_valid_next(p).contains(t),
    ensures
        spec_transition(p, t) == Ok::<OmdPhase, Seq<char>>(spec_resolve(agent_of(p), t)),
        phase_name(spec_resolve(agent_of(p), t)) == t,
        agent_of(spec_resolve(agent_of(p), t)) == agent_of(p),
{
    reveal_strlit("Explore");
    reveal_strlit("Execute");
    reveal_strlit("Verify");
    reveal_strlit("Done");
    reveal_strlit("Interview");
    reveal_strlit("Architect");
    reveal_strlit("Plan");
    reveal_strlit("LoadPlan");
    reveal_strlit("Decompose");
    reveal_strlit("Delegate");
    reveal_strlit("Intake");
    reveal_strlit("Route");
    let v = spec_valid_next(p);
    let k = choose|k: int| 0 <= k < v.len() && v[k] == t;
    assert("Explore"@[2] == 'p' && "Execute"@[2] == 'e');
    assert("Explore"@.len() == 7 && "Verify"@.len() == 6);
    assert("Explore"@.len() == 7 && "Done"@.len() == 4);
    assert("Explore"@.len() == 7 && "Interview"@.len() == 9);
    assert("Explore"@.len() == 7 && "Architect"@.len() == 9);
    assert("Explore"@.len() == 7 && "Plan"@.len() == 4);
    assert("Explore"@.len() == 7 && "LoadPlan"@.len() == 8);
    assert("Explore"@.len() == 7 && "Decompose"@.len() == 9);
    assert("Explore"@.len() == 7 && "Delegate"@.len() == 8);
    assert("Explore"@.len() == 7 && "Intake"@.len() == 6);
    assert("Explore"@.len() == 7 && "Route"@.len() == 5);
    assert("Execute"@.len() == 7 && "Verify"@.len() == 6);
    assert("Execute"@.len() == 7 && "Done"@.len() == 4);
    assert("Execute"@.len() == 7 && "Interview"@.len() == 9);
    assert("Execute"@.len() == 7 && "Architect"@.len() == 9);
    assert("Execute"@.len() == 7 && "Plan"@.len() == 4);
    assert("Execute"@.len() == 7 && "LoadPlan"@.len() == 8);
    assert("Execute"@.len() == 7 && "Decompose"@.len() == 9);
    assert("Execute"@.len() == 7 && "Delegate"@.len() == 8);
    assert("Execute"@.len() == 7 && "Intake"@.len() == 6);
    assert("Execute"@.len() == 7 && "Route"@.len() == 5);
    assert("Verify"@.len() == 6 && "Done"@.len() == 4);
    assert("Verify"@.len() == 6 && "Interview"@.len() == 9);
    assert("Verify"@.len() == 6 && "Architect"@.len() == 9);
    assert("Verify"@.len() == 6 && "Plan"@.len() == 4);
    assert("Verify"@.len() == 6 && "LoadPlan"@.len() == 8);
    assert("Verify"@.len() == 6 && "Decompose"@.len() == 9);
    assert("Verify"@.len() == 6 && "Delegate"@.len() == 8);
    assert("Verify"@[0] == 'V' && "Intake"@[0] == 'I');
    assert("Verify"@.len() == 6 && "Route"@.len() == 5);
    assert("Done"@.len() == 4 && "Interview"@.len() == 9);
    assert("Done"@.len() == 4 && "Architect"@.len() == 9);
    assert("Done"@[0] == 'D' && "Plan"@[0] == 'P');
    assert("Done"@.len() == 4 && "LoadPlan"@.len() == 8);
    assert("Done"@.len() == 4 && "Decompose"@.len() == 9);
    assert("Done"@.len() == 4 && "Delegate"@.len() == 8);
    assert("Done"@.len() == 4 && "Intake"@.len() == 6);
    assert("Done"@.len() == 4 && "Route"@.len() == 5);
    assert("Interview"@[0] == 'I' && "Architect"@[0] == 'A');
    assert("Interview"@.len() == 9 && "Plan"@.len() == 4);
    assert("Interview"@.len() == 9 && "LoadPlan"@.len() == 8);
    assert("Interview"@[0] == 'I' && "Decompose"@[0] == 'D');
    assert("Interview"@.len() == 9 && "Delegate"@.len() == 8);
    assert("Interview"@.len() == 9 && "Intake"@.len() == 6);
    assert("Interview"@.len() == 9 && "Route"@.len() == 5);
    assert("Architect"@.len() == 9 && "Plan"@.len() == 4);
    assert("Architect"@.len() == 9 && "LoadPlan"@.len() == 8);
    assert("Architect"@[0] == 'A' && "Decompose"@[0] == 'D');
    assert("Architect"@.len() == 9 && "Delegate"@.len() == 8);
    assert("Architect"@.len() == 9 && "Intake"@.len() == 6);
    assert("Architect"@.len() == 9 && "Route"@.len() == 5);
    assert("Plan"@.len() == 4 && "LoadPlan"@.len() == 8);
    assert("Plan"@.len() == 4 && "Decompose"@.len() == 9);
    assert("Plan"@.len() == 4 && "Delegate"@.len() == 8);
    assert("Plan"@.len() == 4 && "Intake"@.len() == 6);
    assert("Plan"@.len() == 4 && "Route"@.len() == 5);
    assert("LoadPlan"@.len() == 8 && "Decompose"@.len() == 9);
    assert("LoadPlan"@[0] == 'L' && "Delegate"@[0] == 'D');
    assert("LoadPlan"@.len() == 8 && "Intake"@.len() == 6);
    assert("LoadPlan"@.len() == 8 && "Route"@.len() == 5);
    assert("Decompose"@.len() == 9 && "Delegate"@.len() == 8);
    assert("Decompose"@.len() == 9 && "Intake"@.len() == 6);
    assert("Decompose"@.len() == 9 && "Route"@.len() == 5);
    assert("Delegate"@.len() == 8 && "Intake"@.len() == 6);
    assert("Delegate"@.len() == 8 && "Route"@.len() == 5);
    assert("Intake"@.len() == 6 && "Route"@.len() == 5);
    match p {
        OmdPhase::Tongtian(TongtianPhase::Explore) => { if t == "Execute"@ { assert(spec_all_phase_names(OmdAgent::Tongtian)[1] == t); } },
        OmdPhase::Tongtian(TongtianPhase::Execute) => { if t == "Verify"@ { assert(spec_all_phase_names(OmdAgent::Tongtian)[2] == t); } },
        OmdPhase::Tongtian(TongtianPhase::Verify) => { if t == "Execute"@ { assert(spec_all_phase_names(OmdAgent::Tongtian)[1] == t); } if t == "Done"@ { assert(spec_all_phase_names(OmdAgent::Tongtian)[3] == t); } },
        OmdPhase::Fuxi(FuxiPhase::Interview) => { if t == "Explore"@ { assert(spec_all_phase_names(OmdAgent::Fuxi)[1] == t); } },
        OmdPhase::Fuxi(FuxiPhase::Explore) => { if t == "Architect"@ { assert(spec_all_phase_names(OmdAgent::Fuxi)[2] == t); } },
        OmdPhase::Fuxi(FuxiPhase::Architect) => { if t == "Plan"@ { assert(spec_all_phase_names(OmdAgent::Fuxi)[3] == t); } },
        OmdPhase::Fuxi(FuxiPhase::Plan) => { if t == "Done"@ { assert(spec_all_phase_names(OmdAgent::Fuxi)[4] == t); } },
        OmdPhase::Pangu(PanguPhase::LoadPlan) => { if t == "Decompose"@ { assert(spec_all_phase_names(OmdAgent::Pangu)[1] == t); } },
        OmdPhase::Pangu(PanguPhase::Decompose) => { if t == "Delegate"@ { assert(spec_all_phase_names(OmdAgent::Pangu)[2] == t); } },
        OmdPhase::Pangu(PanguPhase::Delegate) => { if t == "Verify"@ { assert(spec_all_phase_names(OmdAgent::Pangu)[3] == t); } },
        OmdPhase::Pangu(PanguPhase::Verify) => { if t == "Delegate"@ { assert(spec_all_phase_names(OmdAgent::Pangu)[2] == t); } if t == "Done"@ { assert(spec_all_phase_names(OmdAgent::Pangu)[4] == t); } },
        OmdPhase::Hongjun(HongjunPhase::Intake) => { if t == "Route"@ { assert(spec_all_phase_names(OmdAgent::Hongjun)[1] == t); } },
        OmdPhase::Hongjun(HongjunPhase::Route) => { if t == "Done"@ { assert(spec_all_phase_names(OmdAgent::Hongjun)[2] == t); } },
        _ => {},
    }
}

/// A finished workflow has no successor phase.
pub proof fn lemma_done_is_terminal(p: OmdPhase)
    requires
        phase_name(p) == "Done"@,
    ensures
        spec_valid_next(p).len() == 0,
{
    reveal_strlit("Done");
    reveal_strlit("Explore");
    reveal_strlit("Execute");
    reveal_strlit("Verify");
    reveal_strlit("Interview");
    reveal_strlit("Architect");
    reveal_strlit("Plan");
    reveal_strlit("LoadPlan");
    reveal_strlit("Decompose");
    reveal_strlit("Delegate");
    reveal_strlit("Intake");
    reveal_strlit("Route");
    assert("Done"@.len() == 4 && "Explore"@.len() == 7);
    assert("Done"@.len() == 4 && "Execute"@.len() == 7);
    assert("Done"@.len() == 4 && "Verify"@.len() == 6);
    assert("Done"@.len() == 4 && "Interview"@.len() == 9);
    assert("Done"@.len() == 4 && "Architect"@.len() == 9);
    assert("Done"@[0] == 'D' && "Plan"@[0] == 'P');
    assert("Done"@.len() == 4 && "LoadPlan"@.len() == 8);
    assert("Done"@.len() == 4 && "Decompose"@.len() == 9);
    assert("Done"@.len() == 4 && "Delegate"@.len() == 8);
    assert("Done"@.len() == 4 && "Intake"@.len() == 6);
    assert("Done"@.len() == 4 && "Route"@.len() == 5);
}

/// The documented workflows, phase by phase. Tongtian: Explore → Execute
/// → Verify → Done, and a failed verification goes back to Execute. Fuxi:
/// Interview → Explore → Architect → Plan → Done. Pangu: LoadPlan →
/// Decompose → Delegate → Verify → Done, and a failed verification goes
/// back to Delegate to re-delegate. Hongjun: Intake → Route → Done. A
/// finished workflow has no next phase.
pub proof fn lemma_workflow_table()
    ensures
        spec_valid_next(OmdPhase::Tongtian(TongtianPhase::Explore)) == seq!["Execute"@],
        spec_valid_next(OmdPhase::Tongtian(TongtianPhase::Execute)) == seq!["Verify"@],
        spec_valid_next(OmdPhase::Tongtian(TongtianPhase::Verify)) == seq!["Execute"@, "Done"@],
        spec_valid_next(OmdPhase::Tongtian(TongtianPhase::Done)) == Seq::<Seq<char>>::empty(),
        spec_valid_next(OmdPhase::Fuxi(FuxiPhase::Interview)) == seq!["Explore"@],
        spec_valid_next(OmdPhase::Fuxi(FuxiPhase::Explore)) == seq!["Architect"@],
        spec_valid_next(OmdPhase::Fuxi(FuxiPhase::Architect)) == seq!["Plan"@],
        spec_valid_next(OmdPhase::Fuxi(FuxiPhase::Plan)) == seq!["Done"@],
        spec_valid_next(OmdPhase::Fuxi(FuxiPhase::Done)) == Seq::<Seq<char>>::empty(),
        spec_valid_next(OmdPhase::Pangu(PanguPhase::LoadPlan)) == seq!["Decompose"@],
        spec_valid_next(OmdPhase::Pangu(PanguPhase::Decompose)) == seq!["Delegate"@],
        spec_valid_next(OmdPhase::Pangu(PanguPhase::Delegate)) == seq!["Verify"@],
        spec_valid_next(OmdPhase::Pangu(PanguPhase::Verify)) == seq!["Delegate"@, "Done"@],
        spec_valid_next(OmdPhase::Pangu(PanguPhase::Done)) == Seq::<Seq<char>>::empty(),
        spec_valid_next(OmdPhase::Hongjun(HongjunPhase::Intake)) == seq!["Route"@],
        spec_valid_next(OmdPhase::Hongjun(HongjunPhase::Route)) == seq!["Done"@],
        spec_valid_next(OmdPhase::Hongjun(HongjunPhase::Done)) == Seq::<Seq<char>>::empty(),
{
}

/// Each agent starts at the head of its documented workflow, and the
/// workflow's phases come in the documented order.
pub proof fn lemma_workflow_order()
    ensures
        spec_initial_phase(OmdAgent::Tongtian) == OmdPhase::Tongtian(TongtianPhase::Explore),
        spec_initial_phase(OmdAgent::Fuxi) == OmdPhase::Fuxi(FuxiPhase::Interview),
        spec_initial_phase(OmdAgent::Pangu) == OmdPhase::Pangu(PanguPhase::LoadPlan),
        spec_initial_phase(OmdAgent::Hongjun) == OmdPhase::Hongjun(HongjunPhase::Intake),
        spec_all_phase_names(OmdAgent::Tongtian) == seq!["Explore"@, "Execute"@, "Verify"@, "Done"@],
        spec_all_phase_names(OmdAgent::Fuxi) == seq!["Interview"@, "Explore"@, "Architect"@, "Plan"@, "Done"@],
        spec_all_phase_names(OmdAgent::Pangu) == seq!["LoadPlan"@, "Decompose"@, "Delegate"@, "Verify"@, "Done"@],
        spec_all_phase_names(OmdAgent::Hongjun) == seq!["Intake"@, "Route"@, "Done"@],
{
}

/// A failed verification can go back: from Verify, Pangu's machine moves
/// to Delegate and Tongtian's to Execute, and either may finish.
pub proof fn lemma_verify_can_retry()
    ensures
        spec_transition(OmdPhase::Pangu(PanguPhase::Verify), "Delegate"@) == Ok::<OmdPhase, Seq<char>>(OmdPhase::Pangu(PanguPhase::Delegate)),
        spec_transition(OmdPhase::Pangu(PanguPhase::Verify), "Done"@) == Ok::<OmdPhase, Seq<char>>(OmdPhase::Pangu(PanguPhase::Done)),
        spec_transition(OmdPhase::Tongtian(TongtianPhase::Verify), "Execute"@) == Ok::<OmdPhase, Seq<char>>(OmdPhase::Tongtian(TongtianPhase::Execute)),
        spec_transition(OmdPhase::Tongtian(TongtianPhase::Verify), "Done"@) == Ok::<OmdPhase, Seq<char>>(OmdPhase::Tongtian(TongtianPhase::Done)),
{
    lemma_transition_lands_on_target(OmdPhase::Pangu(PanguPhase::Verify), "Delegate"@);
    lemma_transition_lands_on_target(OmdPhase::Pangu(PanguPhase::Verify), "Done"@);
    lemma_transition_lands_on_target(OmdPhase::Tongtian(TongtianPhase::Verify), "Execute"@);
    lemma_transition_lands_on_target(OmdPhase::Tongtian(TongtianPhase::Verify), "Done"@);
    assert(spec_valid_next(OmdPhase::Pangu(PanguPhase::Verify))[0] == "Delegate"@);
    assert(spec_valid_next(OmdPhase::Pangu(PanguPhase::Verify))[1] == "Done"@);
    assert(spec_valid_next(OmdPhase::Tongtian(TongtianPhase::Verify))[0] == "Execute"@);
    assert(spec_valid_next(OmdPhase::Tongtian(TongtianPhase::Verify))[1] == "Done"@);
    reveal_strlit("Delegate");
    reveal_strlit("Done");
    reveal_strlit("Execute");
    reveal_strlit("LoadPlan");
    reveal_strlit("Decompose");
    reveal_strlit("Verify");
    reveal_strlit("Explore");
    assert("Delegate"@[0] != "LoadPlan"@[0]);
    assert("Delegate"@.len() != "Decompose"@.len());
    assert("Execute"@[2] != "Explore"@[2]);
}

} // verus!
