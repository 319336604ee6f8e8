//! Evaluation of flags: fallthrough, rollouts, targeting, prerequisites,
//! and the error cases.

use featureflags::evaluator::{Error, Evaluation, Evaluator, User};
use featureflags::message::{InitData, Message};
use featureflags::models::{
    ClientSideAvailability, Fallthrough, FeatureFlagState, Prerequisite, Rollout, Rule, Target,
    Variation, WeightedVariation,
};
use featureflags::store::MemoryStore;

fn base_flag(key: &str) -> FeatureFlagState {
    FeatureFlagState {
        client_side: false,
        client_side_availability: ClientSideAvailability {
            using_environment_id: false,
            using_mobile_key: false,
        },
        deleted: false,
        fallthrough: Fallthrough { variation: Some(0), rollout: None },
        key: key.to_string(),
        off_variation: 0,
        on: true,
        prerequisites: vec![],
        rules: vec![],
        salt: "test-salt".to_string(),
        targets: vec![],
        track_events: false,
        track_events_fallthrough: false,
        variations: vec![Variation::Bool(false), Variation::Bool(true)],
        version: 1,
    }
}

fn store_with(flags: Vec<FeatureFlagState>) -> MemoryStore {
    let mut store = MemoryStore::new();
    let entries = flags.into_iter().map(|f| (f.key.clone(), f)).collect();
    store.apply(Message::Put(InitData { flags: entries }));
    store
}

#[test]
fn fallthrough() {
    let user = User::new("test-user");
    let mut flag = base_flag("eval_test");
    flag.fallthrough = Fallthrough { variation: Some(1), rollout: None };
    let store = store_with(vec![flag.clone()]);
    let eval = Evaluation::new(&store, &flag, &user);
    assert_eq!(1, eval.index().expect("failed to get variation index"));
}

#[test]
fn fallthrough_rollout() {
    let user1 = User::new("test-user");
    let mut flag = base_flag("eval_test");
    flag.fallthrough = Fallthrough {
        variation: None,
        rollout: Some(Rollout {
            variations: Some(vec![
                WeightedVariation { variation: Some(0), weight: Some(30000) },
                WeightedVariation { variation: Some(1), weight: Some(70000) },
            ]),
        }),
    };
    let store = store_with(vec![flag.clone()]);

    let eval = Evaluation::new(&store, &flag, &user1);
    assert_eq!(1, eval.index().expect("failed to get variation index"));

    let user2 = User::new("my-other-user");
    let eval = Evaluation::new(&store, &flag, &user2);
    assert_eq!(0, eval.index().expect("failed to get variation index"));
}

#[test]
fn targeting() {
    let user = User::new("test-user");
    let mut flag = base_flag("eval_test");
    flag.targets = vec![Target {
        values: Some(vec!["test-user".to_string()]),
        variation: Some(1),
    }];
    let store = store_with(vec![flag.clone()]);

    let eval = Evaluation::new(&store, &flag, &user);
    assert_eq!(1, eval.index().expect("failed to get variation index"));
}

#[test]
fn off_flag_takes_off_variation() {
    let user = User::new("test-user");
    let mut flag = base_flag("eval_test");
    flag.on = false;
    flag.fallthrough = Fallthrough { variation: Some(1), rollout: None };
    flag.targets = vec![Target {
        values: Some(vec!["test-user".to_string()]),
        variation: Some(1),
    }];
    let store = store_with(vec![flag.clone()]);
    let eval = Evaluation::new(&store, &flag, &user);
    assert_eq!(0, eval.index().expect("failed to get variation index"));
}

#[test]
fn missing_flag_not_found() {
    let store = store_with(vec![]);
    let evaluator = Evaluator::new(store);
    let user = User::new("u");
    assert_eq!(Err(Error::FlagNotFound), evaluator.evaluate("absent", &user));
}

#[test]
fn malformed_target_fails() {
    let user = User::new("u");
    let mut flag = base_flag("t");
    flag.targets = vec![Target { values: None, variation: Some(1) }];
    let store = store_with(vec![flag.clone()]);
    let eval = Evaluation::new(&store, &flag, &user);
    assert_eq!(Err(Error::InvalidTarget), eval.index());
}

#[test]
fn declared_rules_unsupported() {
    let user = User::new("u");
    let mut flag = base_flag("r");
    flag.rules = vec![Rule { variation: Some(0) }];
    let store = store_with(vec![flag.clone()]);
    let eval = Evaluation::new(&store, &flag, &user);
    assert_eq!(Err(Error::UnsupportedRules), eval.index());
}

#[test]
fn empty_fallthrough_fails() {
    let user = User::new("u");
    let mut flag = base_flag("f");
    flag.fallthrough = Fallthrough { variation: None, rollout: None };
    let store = store_with(vec![flag.clone()]);
    let eval = Evaluation::new(&store, &flag, &user);
    assert_eq!(Err(Error::EmptyFallthrough), eval.index());
}

#[test]
fn empty_rollout_fails() {
    let user = User::new("u");
    let mut flag = base_flag("f");
    flag.fallthrough = Fallthrough {
        variation: None,
        rollout: Some(Rollout { variations: Some(vec![]) }),
    };
    let store = store_with(vec![flag.clone()]);
    let eval = Evaluation::new(&store, &flag, &user);
    assert_eq!(Err(Error::InvalidRollout), eval.index());
}

#[test]
fn out_of_range_index_fails() {
    let user = User::new("u");
    let mut flag = base_flag("f");
    flag.fallthrough = Fallthrough { variation: Some(7), rollout: None };
    let store = store_with(vec![flag.clone()]);
    let eval = Evaluation::new(&store, &flag, &user);
    assert_eq!(Err(Error::IndexOutOfRange), eval.index());
}

#[test]
fn non_bool_variation_rejected() {
    let user = User::new("u");
    let mut flag = base_flag("f");
    flag.variations = vec![Variation::Int(3), Variation::Text("x".to_string())];
    flag.fallthrough = Fallthrough { variation: Some(0), rollout: None };
    let store = store_with(vec![flag]);
    let evaluator = Evaluator::new(store);
    assert_eq!(Err(Error::InvalidVariationType), evaluator.bool_variation("f", &user));
    assert_eq!(Ok(Variation::Int(3)), evaluator.evaluate("f", &user));
}

#[test]
fn failed_prerequisite_turns_flag_off() {
    let user = User::new("u");
    let mut dep = base_flag("dep");
    dep.fallthrough = Fallthrough { variation: Some(0), rollout: None };
    let mut flag = base_flag("main");
    flag.prerequisites = vec![Prerequisite { key: Some("dep".to_string()), variation: Some(1) }];
    flag.fallthrough = Fallthrough { variation: Some(1), rollout: None };
    let store = store_with(vec![dep, flag.clone()]);
    let eval = Evaluation::new(&store, &flag, &user);
    // dep evaluates to 0, not the required 1, so main behaves as off
    assert_eq!(0, eval.index().expect("failed to get variation index"));
}

#[test]
fn met_prerequisite_falls_through() {
    let user = User::new("u");
    let mut dep = base_flag("dep");
    dep.fallthrough = Fallthrough { variation: Some(1), rollout: None };
    let mut flag = base_flag("main");
    flag.prerequisites = vec![Prerequisite { key: Some("dep".to_string()), variation: Some(1) }];
    flag.fallthrough = Fallthrough { variation: Some(1), rollout: None };
    let store = store_with(vec![dep, flag.clone()]);
    let eval = Evaluation::new(&store, &flag, &user);
    assert_eq!(1, eval.index().expect("failed to get variation index"));
}

#[test]
fn cyclic_prerequisite_fails_fast() {
    let user = User::new("u");
    let mut flag = base_flag("loopy");
    flag.prerequisites = vec![Prerequisite { key: Some("loopy".to_string()), variation: Some(0) }];
    let store = store_with(vec![flag.clone()]);
    let eval = Evaluation::new(&store, &flag, &user);
    assert_eq!(Err(Error::CyclicPrerequisite), eval.index());
}

#[test]
fn evaluation_run_returns_value() {
    let user = User::new("test-user");
    let mut flag = base_flag("eval_test");
    flag.fallthrough = Fallthrough { variation: Some(1), rollout: None };
    let store = store_with(vec![flag.clone()]);
    let eval = Evaluation::new(&store, &flag, &user);
    assert_eq!(Ok(Variation::Bool(true)), eval.run());
}
