use fipa_wasm_agents::manifest::{Brain, Budget, Capability, FitError, Manifest, NodeProfile, Profile};

fn manifest(grants: &[Capability], budget: Budget) -> Manifest {
    Manifest {
        type_id: 0,
        desc: "test".into(),
        name: None,
        profile: Profile::Either,
        brain: Brain::Wasm,
        grants: grants.to_vec(),
        budget,
    }
}

#[test]
fn normal_node_grants_requested_plus_core() {
    let g = NodeProfile::normal()
        .fit(&manifest(&[Capability::Discovery, Capability::State, Capability::Time], Budget::default()))
        .unwrap();
    assert!(g.granted(Capability::Discovery));
    assert!(g.granted(Capability::State));
    assert!(g.granted(Capability::Messaging));
    assert!(g.granted(Capability::Log));
    assert!(!g.granted(Capability::Llm));
}

#[test]
fn iot_node_refuses_an_unoffered_capability() {
    let err = NodeProfile::iot().fit(&manifest(&[Capability::Llm], Budget::default())).unwrap_err();
    assert_eq!(err, FitError::Ungranted(Capability::Llm));
}

#[test]
fn over_budget_is_rejected_with_the_offending_field() {
    let big = Budget { mem_kb: 999_999, ..Budget::default() };
    let err = NodeProfile::iot().fit(&manifest(&[Capability::State], big)).unwrap_err();
    assert_eq!(err, FitError::OverBudget("mem_kb"));
}
