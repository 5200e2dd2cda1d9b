use mediapack::transition::{
    MediaType, Order, Transition, TransitionApplyTo, TransitionItem, TransitionManager, TransitionType,
    STAGE_MILLIS,
};

fn stage(tag: &str) -> TransitionItem {
    TransitionItem { tags: Some(vec![tag.to_string()]) }
}

fn transition(kind: TransitionType, looping: bool, apply_to: TransitionApplyTo) -> Transition {
    Transition {
        transition: kind,
        apply_to,
        order: Order::Sequential,
        loop_items: looping,
        items: vec![stage("one"), stage("two"), stage("three")],
    }
}

#[test]
fn abrupt_transition_walks_the_stages() {
    let mut t = TransitionManager::new(transition(TransitionType::Abrupt, false, TransitionApplyTo::All), 1000);
    assert_eq!(t.get_tags(MediaType::Popups, 1000), Some(vec!["two".to_string()]));
    assert!(!t.try_switch(1000 + STAGE_MILLIS));
    assert!(t.try_switch(1001 + STAGE_MILLIS));
    assert_eq!(t.get_tags(MediaType::Audio, 1001 + STAGE_MILLIS), Some(vec!["three".to_string()]));
    assert!(t.try_switch(1002 + 2 * STAGE_MILLIS));
    // not looping: stays on the last stage
    assert_eq!(t.get_tags(MediaType::Audio, 0), Some(vec!["three".to_string()]));
}

#[test]
fn looping_transition_starts_over() {
    let mut t = TransitionManager::new(transition(TransitionType::Abrupt, true, TransitionApplyTo::All), 0);
    assert!(t.try_switch(STAGE_MILLIS + 1));
    assert!(t.try_switch(2 * STAGE_MILLIS + 2));
    assert_eq!(t.get_tags(MediaType::Links, 0), Some(vec!["one".to_string()]));
}

#[test]
fn linear_transition_ends() {
    let t = TransitionManager::new(transition(TransitionType::Linear, true, TransitionApplyTo::All), 500);
    for _ in 0..20 {
        assert_eq!(t.get_tags(MediaType::Popups, 500), Some(vec!["one".to_string()]));
        assert_eq!(t.get_tags(MediaType::Popups, 500 + STAGE_MILLIS), Some(vec!["two".to_string()]));
        let mid = t.get_tags(MediaType::Popups, 500 + STAGE_MILLIS / 2).unwrap();
        assert!(mid == vec!["one".to_string()] || mid == vec!["two".to_string()]);
    }
}

#[test]
fn transition_applies_to_listed_kinds() {
    let t = TransitionManager::new(
        transition(TransitionType::Abrupt, true, TransitionApplyTo::Only(vec![MediaType::Audio])),
        0,
    );
    assert!(t.applies_to(&MediaType::Audio));
    assert!(!t.applies_to(&MediaType::Popups));
    assert_eq!(t.get_tags(MediaType::Popups, 0), None);
    assert!(t.get_tags(MediaType::Audio, 0).is_some());
}

#[test]
fn random_order_keeps_every_stage() {
    let mut tr = transition(TransitionType::Linear, true, TransitionApplyTo::All);
    tr.order = Order::Random;
    let mut t = TransitionManager::new(tr, 0);
    let first = t.get_tags(MediaType::Audio, 0).unwrap()[0].clone();
    let second = t.get_tags(MediaType::Audio, STAGE_MILLIS).unwrap()[0].clone();
    assert!(t.try_switch(STAGE_MILLIS + 1));
    let third = t.get_tags(MediaType::Audio, 2 * STAGE_MILLIS + 1).unwrap()[0].clone();
    let mut seen = vec![first, second, third];
    seen.sort();
    assert_eq!(seen, vec!["one".to_string(), "three".to_string(), "two".to_string()]);
}

#[test]
fn looping_wraps_to_first_stage() {
    let mut t = TransitionManager::new(transition(TransitionType::Linear, true, TransitionApplyTo::All), 0);
    assert!(t.try_switch(STAGE_MILLIS + 1));
    assert!(t.try_switch(2 * STAGE_MILLIS + 2));
    // current is the old upcoming (stage three), upcoming is stage one again
    assert_eq!(t.get_tags(MediaType::Audio, 2 * STAGE_MILLIS + 2), Some(vec!["three".to_string()]));
    assert_eq!(t.get_tags(MediaType::Audio, 3 * STAGE_MILLIS + 2), Some(vec!["one".to_string()]));
}
