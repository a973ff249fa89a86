use rogue_sim::ecs::EntityId;
use rogue_sim::goap::{plan, Action, ActionBuilder, AiActionType, AiPredicate, State, StateBuilder};

fn have(n: u32) -> AiPredicate {
    AiPredicate::Have(EntityId(n))
}

fn state(facts: &[(AiPredicate, bool)]) -> State {
    let mut s = State::new();
    for (k, v) in facts {
        s.insert(*k, *v);
    }
    s
}

fn action(name: AiActionType, cost: u32, pre: &[(AiPredicate, bool)], post: &[(AiPredicate, bool)]) -> Action {
    let mut a = Action::new(name, cost);
    a.pre_conditions = state(pre);
    a.post_conditions = state(post);
    a
}

#[test]
fn state_insert_replaces_and_get_reads() {
    let mut s = State::new();
    assert_eq!(s.get(&AiPredicate::UnderThreat), None);
    s.insert(AiPredicate::UnderThreat, true);
    s.insert(have(1), false);
    s.insert(AiPredicate::UnderThreat, false);
    assert_eq!(s.get(&AiPredicate::UnderThreat), Some(false));
    assert_eq!(s.get(&have(1)), Some(false));
    assert_eq!(s.get(&have(2)), None);
}

#[test]
fn satisfies_treats_unknown_facts_as_unmet() {
    let s = state(&[(have(1), true)]);
    assert!(s.satisfies(&state(&[])));
    assert!(s.satisfies(&state(&[(have(1), true)])));
    assert!(!s.satisfies(&state(&[(have(1), false)])));
    assert!(!s.satisfies(&state(&[(have(2), false)])));
}

#[test]
fn apply_overwrites_postconditions() {
    let s = state(&[(have(1), true), (AiPredicate::UnderThreat, true)]);
    let t = s.apply(&state(&[(AiPredicate::UnderThreat, false), (have(2), true)]));
    assert_eq!(t.get(&have(1)), Some(true));
    assert_eq!(t.get(&AiPredicate::UnderThreat), Some(false));
    assert_eq!(t.get(&have(2)), Some(true));
}

#[test]
fn plan_to_the_current_state_is_empty() {
    let s = state(&[(AiPredicate::UnderThreat, true), (have(3), false)]);
    let actions = vec![
        action(AiActionType::Meditate, 1, &[(AiPredicate::UnderThreat, false)], &[(AiPredicate::UnderThreat, false)]),
        action(AiActionType::Attack(EntityId(3)), 1, &[(AiPredicate::UnderThreat, true)], &[(AiPredicate::UnderThreat, false)]),
    ];
    assert_eq!(plan(&s, &s, &actions), Some(vec![]));
}

#[test]
fn plan_chains_preconditions() {
    let start = state(&[(have(1), false)]);
    let goal = state(&[(have(1), false), (have(9), true)]);
    let actions = vec![
        action(AiActionType::DrinkPotable(EntityId(1)), 1, &[(have(1), true)], &[(have(1), false), (have(9), true)]),
        action(AiActionType::Get(EntityId(1)), 1, &[(have(1), false)], &[(have(1), true)]),
    ];
    let steps = plan(&start, &goal, &actions).unwrap();
    assert_eq!(steps, vec![1, 0]);
    // Setting the postconditions in order reaches the goal.
    let mut s = start;
    for i in steps {
        s = s.apply(&actions[i].post_conditions);
    }
    assert!(s.satisfies(&goal));
}

#[test]
fn plan_finds_the_cheapest_sequence() {
    // One expensive action does it all; two cheap ones do it too.
    let start = state(&[]);
    let goal = state(&[(have(1), true), (have(2), true), (have(3), true)]);
    let actions = vec![
        action(AiActionType::Get(EntityId(7)), 1, &[(have(4), true)], &[(have(1), true), (have(2), true), (have(3), true)]),
        action(AiActionType::Get(EntityId(4)), 1, &[], &[(have(4), true)]),
        action(AiActionType::Get(EntityId(8)), 3, &[], &[(have(1), true), (have(2), true), (have(3), true)]),
    ];
    assert_eq!(plan(&start, &goal, &actions), Some(vec![1, 0]));
}

#[test]
fn plan_fails_when_the_goal_is_out_of_reach() {
    let start = state(&[]);
    let goal = state(&[(AiPredicate::UnderThreat, false)]);
    let actions = vec![action(
        AiActionType::Meditate,
        1,
        &[(AiPredicate::UnderThreat, false)],
        &[(AiPredicate::UnderThreat, false)],
    )];
    assert_eq!(plan(&start, &goal, &actions), None);
    assert_eq!(plan(&start, &goal, &vec![]), None);
    assert_eq!(plan(&start, &state(&[]), &vec![]), Some(vec![]));
}

#[test]
fn builders_set_conditions() {
    let s = State::new().with(AiPredicate::UnderThreat, true).with(have(2), false);
    assert_eq!(s.get(&AiPredicate::UnderThreat), Some(true));
    assert_eq!(s.get(&have(2)), Some(false));
    let a = Action::build(AiActionType::Attack(EntityId(2)), 4)
        .pre(AiPredicate::UnderThreat, true)
        .post(AiPredicate::UnderThreat, false);
    assert_eq!(a.cost, 4);
    assert_eq!(a.pre_conditions.get(&AiPredicate::UnderThreat), Some(true));
    assert_eq!(a.post_conditions.get(&AiPredicate::UnderThreat), Some(false));
    assert_eq!(plan(&s, &State::new().with(AiPredicate::UnderThreat, false), &vec![a]), Some(vec![0]));
}
