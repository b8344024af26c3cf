use fipa_wasm_agents::crypto::NodeCrypto;
use fipa_wasm_agents::manifest::{Brain, Budget, Capability, FitError, Manifest, NodeProfile, Profile};
use fipa_wasm_agents::migrate::{check_migration, AgentSnapshot, Handoff, MigrateRefusal};

fn wmanifest(grants: &[Capability]) -> Manifest {
    Manifest {
        type_id: 0,
        desc: "ctr".into(),
        name: None,
        profile: Profile::Either,
        brain: Brain::Wasm,
        grants: grants.to_vec(),
        budget: Budget::default(),
    }
}

struct Move {
    snap: AgentSnapshot,
    ho: Handoff,
    dest: NodeCrypto,
    origin: NodeCrypto,
}

fn moving(uuid: &str, epoch: u64) -> Move {
    let origin = NodeCrypto::generate();
    let dest = NodeCrypto::generate();
    let snap = AgentSnapshot::sealed(uuid, epoch, b"wasm".to_vec(), b"state".to_vec(), &origin);
    let ho = Handoff::sealed(uuid, dest.public_key().to_vec(), epoch, &origin);
    Move { snap, ho, dest, origin }
}

#[test]
fn migrated_agent_lands_with_a_fitted_grant_not_full() {
    let mv = moving("CTR", 1);
    let m = wmanifest(&[Capability::State]);
    let g = check_migration(&mv.snap, &mv.ho, &mv.dest.public_key(), false, None, None, &NodeProfile::normal(), Some(&m))
        .unwrap();
    assert!(g.granted(Capability::State));
    assert!(!g.granted(Capability::Llm));
}

#[test]
fn migration_refuses_a_manifest_that_does_not_fit_the_destination() {
    let mv = moving("CTR", 1);
    let m = wmanifest(&[Capability::Llm]);
    let r = check_migration(&mv.snap, &mv.ho, &mv.dest.public_key(), false, None, None, &NodeProfile::iot(), Some(&m));
    assert!(matches!(r, Err(MigrateRefusal::Unfit(FitError::Ungranted(Capability::Llm)))));
    let r = check_migration(&mv.snap, &mv.ho, &mv.dest.public_key(), false, None, None, &NodeProfile::iot(), None);
    assert!(matches!(r, Err(MigrateRefusal::BadManifest)));
}

#[test]
fn migration_refuses_a_reserved_uuid() {
    let mv = moving("ams", 1);
    let m = wmanifest(&[]);
    let r = check_migration(&mv.snap, &mv.ho, &mv.dest.public_key(), false, None, None, &NodeProfile::normal(), Some(&m));
    assert!(matches!(r, Err(MigrateRefusal::Reserved)));
}

#[test]
fn migration_refuses_an_origin_key_change() {
    let mv = moving("CTR", 2);
    let m = wmanifest(&[]);
    let other = NodeCrypto::generate();
    let r = check_migration(
        &mv.snap, &mv.ho, &mv.dest.public_key(), false, Some(other.public_key()), None, &NodeProfile::normal(), Some(&m),
    );
    assert!(matches!(r, Err(MigrateRefusal::BadOrigin)));
    let ok = check_migration(
        &mv.snap, &mv.ho, &mv.dest.public_key(), false, Some(mv.origin.public_key()), Some(1), &NodeProfile::normal(), Some(&m),
    );
    assert!(ok.is_ok());
}

#[test]
fn migration_refuses_a_replayed_epoch_and_a_collision() {
    let mv = moving("CTR", 5);
    let m = wmanifest(&[]);
    let p = NodeProfile::normal();
    let me = mv.dest.public_key();
    assert!(matches!(check_migration(&mv.snap, &mv.ho, &me, false, None, Some(5), &p, Some(&m)), Err(MigrateRefusal::Replay)));
    assert!(matches!(check_migration(&mv.snap, &mv.ho, &me, false, None, Some(9), &p, Some(&m)), Err(MigrateRefusal::Replay)));
    assert!(check_migration(&mv.snap, &mv.ho, &me, false, None, Some(4), &p, Some(&m)).is_ok());
    assert!(matches!(check_migration(&mv.snap, &mv.ho, &me, true, None, None, &p, Some(&m)), Err(MigrateRefusal::Collision)));
}

#[test]
fn migration_refuses_a_handoff_for_another_node_or_a_tampered_snapshot() {
    let mut mv = moving("CTR", 1);
    let m = wmanifest(&[]);
    let p = NodeProfile::normal();
    let stranger = NodeCrypto::generate();
    assert!(matches!(
        check_migration(&mv.snap, &mv.ho, &stranger.public_key(), false, None, None, &p, Some(&m)),
        Err(MigrateRefusal::NotForMe)
    ));
    mv.snap.state = b"evil".to_vec();
    assert!(matches!(
        check_migration(&mv.snap, &mv.ho, &mv.dest.public_key(), false, None, None, &p, Some(&m)),
        Err(MigrateRefusal::BadSignature)
    ));
}
