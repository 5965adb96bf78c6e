//! Orchestrator agents and their workflow phases.
use vstd::prelude::*;
use crate::text::str_eq;

verus! {

/// The four orchestrator agents.
#[derive(Debug, Clone, Copy, PartialEq, Eq, Structural)]
pub enum OmdAgent {
    Hongjun,
    Fuxi,
    Pangu,
    Tongtian,
}

#[derive(Debug, Clone, Copy, PartialEq, Eq, Structural)]
pub enum TongtianPhase {
    Explore,
    Execute,
    Verify,
    Done,
}

#[derive(Debug, Clone, Copy, PartialEq, Eq, Structural)]
pub enum FuxiPhase {
    Interview,
    Explore,
    Architect,
    Plan,
    Done,
}

#[derive(Debug, Clone, Copy, PartialEq, Eq, Structural)]
pub enum PanguPhase {
    LoadPlan,
    Decompose,
    Delegate,
    Verify,
    Done,
}

#[derive(Debug, Clone, Copy, PartialEq, Eq, Structural)]
pub enum HongjunPhase {
    Intake,
    Route,
    Done,
}

/// A phase of one agent's workflow.
#[derive(Debug, Clone, Copy, PartialEq, Eq, Structural)]
pub enum OmdPhase {
    Tongtian(TongtianPhase),
    Fuxi(FuxiPhase),
    Pangu(PanguPhase),
    Hongjun(HongjunPhase),
}

/// The agent a phase belongs to.
pub open spec fn agent_of(p: OmdPhase) -> OmdAgent {
    match p {
        OmdPhase::Tongtian(_) => OmdAgent::Tongtian,
        OmdPhase::Fuxi(_) => OmdAgent::Fuxi,
        OmdPhase::Pangu(_) => OmdAgent::Pangu,
        OmdPhase::Hongjun(_) => OmdAgent::Hongjun,
    }
}

/// The name of an agent (as `Debug` prints it).
pub open spec fn agent_name(a: OmdAgent) -> Seq<char> {
    match a {
        OmdAgent::Hongjun => "Hongjun"@,
        OmdAgent::Fuxi => "Fuxi"@,
        OmdAgent::Pangu => "Pangu"@,
        OmdAgent::Tongtian => "Tongtian"@,
    }
}

/// The name of a phase.
pub open spec fn phase_name(p: OmdPhase) -> Seq<char> {
    match p {
        OmdPhase::Tongtian(t) => match t {
            TongtianPhase::Explore => "Explore"@,
            TongtianPhase::Execute => "Execute"@,
            TongtianPhase::Verify => "Verify"@,
            TongtianPhase::Done => "Done"@,
        },
        OmdPhase::Fuxi(f) => match f {
            FuxiPhase::Interview => "Interview"@,
            FuxiPhase::Explore => "Explore"@,
            FuxiPhase::Architect => "Architect"@,
            FuxiPhase::Plan => "Plan"@,
            FuxiPhase::Done => "Done"@,
        },
        OmdPhase::Pangu(g) => match g {
            PanguPhase::LoadPlan => "LoadPlan"@,
            PanguPhase::Decompose => "Decompose"@,
            PanguPhase::Delegate => "Delegate"@,
            PanguPhase::Verify => "Verify"@,
            PanguPhase::Done => "Done"@,
        },
        OmdPhase::Hongjun(h) => match h {
            HongjunPhase::Intake => "Intake"@,
            HongjunPhase::Route => "Route"@,
            HongjunPhase::Done => "Done"@,
        },
    }
}

/// The phase of agent `a` named `p`, if there is one.
pub open spec fn spec_from_agent_and_name(a: Seq<char>, p: Seq<char>) -> Option<OmdPhase> {
    if a == "Tongtian"@ {
        if p == "Explore"@ {
            Some(OmdPhase::Tongtian(TongtianPhase::Explore))
        } else if p == "Execute"@ {
            Some(OmdPhase::Tongtian(TongtianPhase::Execute))
        } else if p == "Verify"@ {
            Some(OmdPhase::Tongtian(TongtianPhase::Verify))
        } else if p == "Done"@ {
            Some(OmdPhase::Tongtian(TongtianPhase::Done))
        } else {
            None
        }
    } else if a == "Fuxi"@ {
        if p == "Interview"@ {
            Some(OmdPhase::Fuxi(FuxiPhase::Interview))
        } else if p == "Explore"@ {
            Some(OmdPhase::Fuxi(FuxiPhase::Explore))
        } else if p == "Architect"@ {
            Some(OmdPhase::Fuxi(FuxiPhase::Architect))
        } else if p == "Plan"@ {
            Some(OmdPhase::Fuxi(FuxiPhase::Plan))
        } else if p == "Done"@ {
            Some(OmdPhase::Fuxi(FuxiPhase::Done))
        } else {
            None
        }
    } else if a == "Pangu"@ {
        if p == "LoadPlan"@ {
            Some(OmdPhase::Pangu(PanguPhase::LoadPlan))
        } else if p == "Decompose"@ {
            Some(OmdPhase::Pangu(PanguPhase::Decompose))
        } else if p == "Delegate"@ {
            Some(OmdPhase::Pangu(PanguPhase::Delegate))
        } else if p == "Verify"@ {
            Some(OmdPhase::Pangu(PanguPhase::Verify))
        } else if p == "Done"@ {
            Some(OmdPhase::Pangu(PanguPhase::Done))
        } else {
            None
        }
    } else if a == "Hongjun"@ {
        if p == "Intake"@ {
            Some(OmdPhase::Hongjun(HongjunPhase::Intake))
        } else if p == "Route"@ {
            Some(OmdPhase::Hongjun(HongjunPhase::Route))
        } else if p == "Done"@ {
            Some(OmdPhase::Hongjun(HongjunPhase::Done))
        } else {
            None
        }
    } else {
        None
    }
}

/// Name of an agent (as `Debug` prints it).
pub fn agent_display(a: OmdAgent) -> (r: &'static str)
    ensures
        r@ == agent_name(a),
{
    match a {
        OmdAgent::Hongjun => "Hongjun",
        OmdAgent::Fuxi => "Fuxi",
        OmdAgent::Pangu => "Pangu",
        OmdAgent::Tongtian => "Tongtian",
    }
}

impl OmdPhase {
    /// Resolve agent name + phase name strings into an `OmdPhase`.
    /// Returns `None` if the combination is invalid.
    pub fn from_agent_and_name(agent: &str, phase: &str) -> (r: Option<Self>)
        ensures
            r == spec_from_agent_and_name(agent@, phase@),
    {
        if str_eq(agent, "Tongtian") {
            if str_eq(phase, "Explore") {
                Some(OmdPhase::Tongtian(TongtianPhase::Explore))
            } else if str_eq(phase, "Execute") {
                Some(OmdPhase::Tongtian(TongtianPhase::Execute))
            } else if str_eq(phase, "Verify") {
                Some(OmdPhase::Tongtian(TongtianPhase::Verify))
            } else if str_eq(phase, "Done") {
                Some(OmdPhase::Tongtian(TongtianPhase::Done))
            } else {
                None
            }
        } else if str_eq(agent, "Fuxi") {
            if str_eq(phase, "Interview") {
                Some(OmdPhase::Fuxi(FuxiPhase::Interview))
            } else if str_eq(phase, "Explore") {
                Some(OmdPhase::Fuxi(FuxiPhase::Explore))
            } else if str_eq(phase, "Architect") {
                Some(OmdPhase::Fuxi(FuxiPhase::Architect))
            } else if str_eq(phase, "Plan") {
                Some(OmdPhase::Fuxi(FuxiPhase::Plan))
            } else if str_eq(phase, "Done") {
                Some(OmdPhase::Fuxi(FuxiPhase::Done))
            } else {
                None
            }
        } else if str_eq(agent, "Pangu") {
            if str_eq(phase, "LoadPlan") {
                Some(OmdPhase::Pangu(PanguPhase::LoadPlan))
            } else if str_eq(phase, "Decompose") {
                Some(OmdPhase::Pangu(PanguPhase::Decompose))
            } else if str_eq(phase, "Delegate") {
                Some(OmdPhase::Pangu(PanguPhase::Delegate))
            } else if str_eq(phase, "Verify") {
                Some(OmdPhase::Pangu(PanguPhase::Verify))
            } else if str_eq(phase, "Done") {
                Some(OmdPhase::Pangu(PanguPhase::Done))
            } else {
                None
            }
        } else if str_eq(agent, "Hongjun") {
            if str_eq(phase, "Intake") {
                Some(OmdPhase::Hongjun(HongjunPhase::Intake))
            } else if str_eq(phase, "Route") {
                Some(OmdPhase::Hongjun(HongjunPhase::Route))
            } else if str_eq(phase, "Done") {
                Some(OmdPhase::Hongjun(HongjunPhase::Done))
            } else {
                None
            }
        } else {
            None
        }
    }

    /// The phase's name.
    pub fn name(&self) -> (r: &'static str)
        ensures
            r@ == phase_name(*self),
    {
        match self {
            OmdPhase::Tongtian(p) => match p {
                TongtianPhase::Explore => "Explore",
                TongtianPhase::Execute => "Execute",
                TongtianPhase::Verify => "Verify",
                TongtianPhase::Done => "Done",
            },
            OmdPhase::Fuxi(p) => match p {
                FuxiPhase::Interview => "Interview",
                FuxiPhase::Explore => "Explore",
                FuxiPhase::Architect => "Architect",
                FuxiPhase::Plan => "Plan",
                FuxiPhase::Done => "Done",
            },
            OmdPhase::Pangu(p) => match p {
                PanguPhase::LoadPlan => "LoadPlan",
                PanguPhase::Decompose => "Decompose",
                PanguPhase::Delegate => "Delegate",
                PanguPhase::Verify => "Verify",
                PanguPhase::Done => "Done",
            },
            OmdPhase::Hongjun(p) => match p {
                HongjunPhase::Intake => "Intake",
                HongjunPhase::Route => "Route",
                HongjunPhase::Done => "Done",
            },
        }
    }
}

/// Resolving an agent's name and a phase's name gives back the phase:
/// `from_agent_and_name` inverts `name`.
pub proof fn lemma_names_round_trip(p: OmdPhase)
    ensures
        spec_from_agent_and_name(agent_name(agent_of(p)), phase_name(p)) == Some(p),
{
    reveal_strlit("Hongjun");
    reveal_strlit("Fuxi");
    reveal_strlit("Pangu");
    reveal_strlit("Tongtian");
    reveal_strlit("Explore");
    reveal_strlit("Execute");
    reveal_strlit("Verify");
    reveal_strlit("Done");
    reveal_strlit("Interview");
    reveal_strlit("Architect");
    reveal_strlit("Plan");
    reveal_strlit("LoadPlan");
    reveal_strlit("Decompose");
    reveal_strlit("Delegate");
    reveal_strlit("Intake");
    reveal_strlit("Route");
    assert("Tongtian"@.len() == 8 && "Fuxi"@.len() == 4);
    assert("Tongtian"@.len() == 8 && "Pangu"@.len() == 5);
    assert("Tongtian"@.len() == 8 && "Hongjun"@.len() == 7);
    assert("Fuxi"@.len() == 4 && "Pangu"@.len() == 5);
    assert("Fuxi"@.len() == 4 && "Hongjun"@.len() == 7);
    assert("Pangu"@.len() == 5 && "Hongjun"@.len() == 7);
    assert("Explore"@[2] == 'p' && "Execute"@[2] == 'e');
    assert("Explore"@.len() == 7 && "Verify"@.len() == 6);
    assert("Explore"@.len() == 7 && "Done"@.len() == 4);
    assert("Execute"@.len() == 7 && "Verify"@.len() == 6);
    assert("Execute"@.len() == 7 && "Done"@.len() == 4);
    assert("Verify"@.len() == 6 && "Done"@.len() == 4);
    assert("Interview"@.len() == 9 && "Explore"@.len() == 7);
    assert("Interview"@[0] == 'I' && "Architect"@[0] == 'A');
    assert("Interview"@.len() == 9 && "Plan"@.len() == 4);
    assert("Interview"@.len() == 9 && "Done"@.len() == 4);
    assert("Architect"@.len() == 9 && "Plan"@.len() == 4);
    assert("Architect"@.len() == 9 && "Done"@.len() == 4);
    assert("Plan"@[0] == 'P' && "Done"@[0] == 'D');
    assert("Explore"@.len() == 7 && "Architect"@.len() == 9);
    assert("Explore"@.len() == 7 && "Plan"@.len() == 4);
    assert("LoadPlan"@.len() == 8 && "Decompose"@.len() == 9);
    assert("LoadPlan"@[0] == 'L' && "Delegate"@[0] == 'D');
    assert("LoadPlan"@.len() == 8 && "Verify"@.len() == 6);
    assert("LoadPlan"@.len() == 8 && "Done"@.len() == 4);
    assert("Decompose"@.len() == 9 && "Delegate"@.len() == 8);
    assert("Decompose"@.len() == 9 && "Verify"@.len() == 6);
    assert("Decompose"@.len() == 9 && "Done"@.len() == 4);
    assert("Delegate"@.len() == 8 && "Verify"@.len() == 6);
    assert("Delegate"@.len() == 8 && "Done"@.len() == 4);
    assert("Intake"@.len() == 6 && "Route"@.len() == 5);
    assert("Intake"@.len() == 6 && "Done"@.len() == 4);
    assert("Route"@.len() == 5 && "Done"@.len() == 4);
}

} // verus!
