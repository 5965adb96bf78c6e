//! Evidence required before a phase transition.
use vstd::prelude::*;
use crate::text::{str_eq, str_views};
use crate::types::{FuxiPhase, OmdPhase, PanguPhase, TongtianPhase};

verus! {

/// Evidence types that can satisfy a transition guard requirement.
#[derive(Debug, Clone, Copy, PartialEq, Eq, Structural)]
pub enum RequiredEvidence {
    FileDiscovery,
    TestResult,
    GitDiff,
    PlanArtifact,
}

/// The evidence the transition from `p` to the phase named `t` requires.
/// Empty means the transition needs no specific evidence.
pub open spec fn spec_required_evidence(p: OmdPhase, t: Seq<char>) -> Seq<RequiredEvidence> {
    match p {
        OmdPhase::Tongtian(TongtianPhase::Explore) => if t == "Execute"@ {
            seq![RequiredEvidence::FileDiscovery]
        } else {
            seq![]
        },
        OmdPhase::Tongtian(TongtianPhase::Execute) => if t == "Verify"@ {
            seq![RequiredEvidence::GitDiff]
        } else {
            seq![]
        },
        OmdPhase::Tongtian(TongtianPhase::Verify) => if t == "Done"@ {
            seq![RequiredEvidence::TestResult]
        } else {
            seq![]
        },
        OmdPhase::Fuxi(FuxiPhase::Explore) => if t == "Architect"@ {
            seq![RequiredEvidence::FileDiscovery]
        } else {
            seq![]
        },
        OmdPhase::Fuxi(FuxiPhase::Plan) => if t == "Done"@ {
            seq![RequiredEvidence::PlanArtifact]
        } else {
            seq![]
        },
        OmdPhase::Pangu(PanguPhase::Verify) => if t == "Done"@ {
            seq![RequiredEvidence::TestResult]
        } else {
            seq![]
        },
        _ => seq![],
    }
}

/// The type name under which evidence of kind `r` is submitted.
pub open spec fn evidence_type_name(r: RequiredEvidence) -> Seq<char> {
    match r {
        RequiredEvidence::FileDiscovery => "FileDiscovery"@,
        RequiredEvidence::TestResult => "TestResult"@,
        RequiredEvidence::GitDiff => "GitDiff"@,
        RequiredEvidence::PlanArtifact => "PlanArtifact"@,
    }
}

/// The required evidence whose type is not among the submitted `types`.
pub open spec fn missing_evidence(req: Seq<RequiredEvidence>, types: Seq<Seq<char>>) -> Seq<
    RequiredEvidence,
>
    decreases req.len(),
{
    if req.len() == 0 {
        seq![]
    } else {
        let rest = missing_evidence(req.drop_last(), types);
        if types.contains(evidence_type_name(req.last())) {
            rest
        } else {
            rest.push(req.last())
        }
    }
}

/// Outcome of checking submitted evidence types against a transition:
/// `Err` holds the missing evidence. `ExplicitSkip` satisfies every
/// requirement.
pub open spec fn spec_check_evidence(p: OmdPhase, t: Seq<char>, types: Seq<Seq<char>>) -> Result<
    (),
    Seq<RequiredEvidence>,
> {
    let req = spec_required_evidence(p, t);
    if req.len() == 0 {
        Ok(())
    } else if types.contains("ExplicitSkip"@) {
        Ok(())
    } else {
        let missing = missing_evidence(req, types);
        if missing.len() == 0 {
            Ok(())
        } else {
            Err(missing)
        }
    }
}

/// Return the required evidence types for a given phase transition.
/// Empty = no specific evidence required (transition allowed unconditionally).
/// ExplicitSkip is always an implicit alternative for any requirement.
pub fn required_evidence_for(current_phase: &OmdPhase, target: &str) -> (r: Vec<RequiredEvidence>)
    ensures
        r@ == spec_required_evidence(*current_phase, target@),
{
    let r = match current_phase {
        OmdPhase::Tongtian(TongtianPhase::Explore) => if str_eq(target, "Execute") {
            vec![RequiredEvidence::FileDiscovery]
        } else {
            vec![]
        },
        OmdPhase::Tongtian(TongtianPhase::Execute) => if str_eq(target, "Verify") {
            vec![RequiredEvidence::GitDiff]
        } else {
            vec![]
        },
        OmdPhase::Tongtian(TongtianPhase::Verify) => if str_eq(target, "Done") {
            vec![RequiredEvidence::TestResult]
        } else {
            vec![]
        },
        OmdPhase::Fuxi(FuxiPhase::Explore) => if str_eq(target, "Architect") {
            vec![RequiredEvidence::FileDiscovery]
        } else {
            vec![]
        },
        OmdPhase::Fuxi(FuxiPhase::Plan) => if str_eq(target, "Done") {
            vec![RequiredEvidence::PlanArtifact]
        } else {
            vec![]
        },
        OmdPhase::Pangu(PanguPhase::Verify) => if str_eq(target, "Done") {
            vec![RequiredEvidence::TestResult]
        } else {
            vec![]
        },
        _ => vec![],
    };
    assert(r@ =~= spec_required_evidence(*current_phase, target@));
    r
}

/// The type name of an evidence kind.
pub fn evidence_name(r: RequiredEvidence) -> (s: &'static str)
    ensures
        s@ == evidence_type_name(r),
{
    match r {
        RequiredEvidence::FileDiscovery => "FileDiscovery",
        RequiredEvidence::TestResult => "TestResult",
        RequiredEvidence::GitDiff => "GitDiff",
        RequiredEvidence::PlanArtifact => "PlanArtifact",
    }
}

/// Whether `name` is one of `types`.
fn slice_contains(types: &[&str], name: &str) -> (r: bool)
    ensures
        r == str_views(types@).contains(name@),
{
    let mut k: usize = 0;
    while k < types.len()
        invariant
            k <= types.len(),
            forall|m: int| 0 <= m < k ==> str_views(types@)[m] != name@,
        decreases types.len() - k,
    {
        if str_eq(types[k], name) {
            assert(str_views(types@)[k as int] == name@);
            return true;
        }
        k += 1;
    }
    false
}

/// Check if submitted evidence satisfies requirements. ExplicitSkip always satisfies.
pub fn check_evidence_requirements(
    current_phase: &OmdPhase,
    target: &str,
    evidence_types: &[&str],
) -> (r: Result<(), Vec<RequiredEvidence>>)
    ensures
        match spec_check_evidence(*current_phase, target@, str_views(evidence_types@)) {
            Ok(()) => r is Ok,
            Err(m) => r matches Err(v) && v@ == m,
        },
{
    let required = required_evidence_for(current_phase, target);
    if required.len() == 0 {
        return Ok(());
    }
    if slice_contains(evidence_types, "ExplicitSkip") {
        return Ok(());
    }
    let ghost types = str_views(evidence_types@);
    let mut missing: Vec<RequiredEvidence> = Vec::new();
    let mut k: usize = 0;
    assert(required@.subrange(0, 0) =~= Seq::<RequiredEvidence>::empty());
    while k < required.len()
        invariant
            k <= required.len(),
            types == str_views(evidence_types@),
            missing@ == missing_evidence(required@.subrange(0, k as int), types),
        decreases required.len() - k,
    {
        let req = required[k];
        let present = slice_contains(evidence_types, evidence_name(req));
        assert(required@.subrange(0, k + 1).drop_last() =~= required@.subrange(0, k as int));
        if !present {
            missing.push(req);
        }
        k += 1;
    }
    assert(required@.subrange(0, required.len() as int) =~= required@);
    if missing.len() == 0 {
        Ok(())
    } else {
        Err(missing)
    }
}

// ───────────────────────────── laws ─────────────────────────────

/// An explicit skip satisfies the requirements of every transition.
pub proof fn lemma_explicit_skip_satisfies(p: OmdPhase, t: Seq<char>, types: Seq<Seq<char>>)
    requires
        types.contains("ExplicitSkip"@),
    ensures
        spec_check_evidence(p, t, types) is Ok,
{
}

proof fn lemma_missing_subset(req: Seq<RequiredEvidence>, types: Seq<Seq<char>>)
    ensures
        forall|k: int|
            0 <= k < missing_evidence(req, types).len() ==> req.contains(
                #[trigger] missing_evidence(req, types)[k],
            ) && !types.contains(evidence_type_name(missing_evidence(req, types)[k])),
    decreases req.len(),
{
    if req.len() > 0 {
        lemma_missing_subset(req.drop_last(), types);
        let rest = missing_evidence(req.drop_last(), types);
        assert forall|k: int|
            0 <= k < missing_evidence(req, types).len() implies req.contains(
                #[trigger] missing_evidence(req, types)[k],
            ) && !types.contains(evidence_type_name(missing_evidence(req, types)[k])) by {
            if k < rest.len() {
                let i = choose|i: int| 0 <= i < req.drop_last().len() && req.drop_last()[i] == rest[k];
                assert(req[i] == rest[k]);
            } else {
                assert(req[req.len() - 1] == req.last());
            }
        }
    }
}

proof fn lemma_missing_empty_when_all_given(req: Seq<RequiredEvidence>, types: Seq<Seq<char>>)
    requires
        forall|k: int| 0 <= k < req.len() ==> types.contains(evidence_type_name(#[trigger] req[k])),
    ensures
        missing_evidence(req, types).len() == 0,
    decreases req.len(),
{
    if req.len() > 0 {
        assert(types.contains(evidence_type_name(req[req.len() - 1])));
        lemma_missing_empty_when_all_given(req.drop_last(), types);
    }
}

/// A transition is refused only for required evidence that was not
/// submitted, and submitting every required type satisfies it.
pub proof fn lemma_missing_is_exactly_unsubmitted(p: OmdPhase, t: Seq<char>, types: Seq<Seq<char>>)
    ensures
        spec_check_evidence(p, t, types) matches Err(m) ==> (forall|k: int|
            0 <= k < m.len() ==> spec_required_evidence(p, t).contains(#[trigger] m[k])
                && !types.contains(evidence_type_name(m[k]))),
        (forall|k: int|
            0 <= k < spec_required_evidence(p, t).len() ==> types.contains(
                evidence_type_name(#[trigger] spec_required_evidence(p, t)[k]),
            )) ==> spec_check_evidence(p, t, types) is Ok,
{
    lemma_missing_subset(spec_required_evidence(p, t), types);
    if forall|k: int|
        0 <= k < spec_required_evidence(p, t).len() ==> types.contains(
            evidence_type_name(#[trigger] spec_required_evidence(p, t)[k]),
        ) {
        lemma_missing_empty_when_all_given(spec_required_evidence(p, t), types);
    }
}

/// Evidence is required for exactly six documented transitions:
/// Tongtian Explore → Execute needs a file discovery, Execute → Verify a
/// git diff, Verify → Done a test result; Fuxi Explore → Architect a file
/// discovery, Plan → Done a plan artifact; Pangu Verify → Done a test
/// result. Every other request (Pangu Delegate → Verify among them) needs
/// none, so it passes with no evidence at all.
pub proof fn lemma_evidence_table(p: OmdPhase, t: Seq<char>)
    ensures
        spec_required_evidence(p, t) == (if p == OmdPhase::Tongtian(TongtianPhase::Explore) && t == "Execute"@ {
            seq![RequiredEvidence::FileDiscovery]
        } else if p == OmdPhase::Tongtian(TongtianPhase::Execute) && t == "Verify"@ {
            seq![RequiredEvidence::GitDiff]
        } else if p == OmdPhase::Tongtian(TongtianPhase::Verify) && t == "Done"@ {
            seq![RequiredEvidence::TestResult]
        } else if p == OmdPhase::Fuxi(FuxiPhase::Explore) && t == "Architect"@ {
            seq![RequiredEvidence::FileDiscovery]
        } else if p == OmdPhase::Fuxi(FuxiPhase::Plan) && t == "Done"@ {
            seq![RequiredEvidence::PlanArtifact]
        } else if p == OmdPhase::Pangu(PanguPhase::Verify) && t == "Done"@ {
            seq![RequiredEvidence::TestResult]
        } else {
            Seq::<RequiredEvidence>::empty()
        }),
        spec_required_evidence(p, t).len() == 0 ==> spec_check_evidence(p, t, Seq::empty()) is Ok,
{
    lemma_missing_is_exactly_unsubmitted(p, t, Seq::empty());
}

} // verus!
