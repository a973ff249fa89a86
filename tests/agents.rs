use rogue_sim::actions::{Agent, AiAction, AiActions};
use rogue_sim::ai::Ai;
use rogue_sim::color::{Color, Hue};
use rogue_sim::data::Data;
use rogue_sim::ecs::{Attributes, EntityId, Liquid, Position, Rect};
use rogue_sim::factions::{Factions, Opinion, MONSTER, NEUTRAL, PLAYER};
use rogue_sim::fov::Fov;
use rogue_sim::goap::{AiActionType, AiPredicate};
use rogue_sim::level::{Entity, Level, Tile};
use rogue_sim::system::{GameAction, GameActionType, GameActor};
use rogue_sim::world::{EntityRecord, World};

fn open_level(width: i32, height: i32) -> Level {
    let mut level = Level::empty(Rect::new(0, 0, width, height));
    for y in 0..height {
        for x in 0..width {
            level.set(x, y, Tile::floor());
        }
    }
    level
}

fn place(level: &mut Level, id: EntityId, at: Position, blocked: bool) {
    let mut tile = level.get(at.x, at.y).clone();
    tile.add_entity(Entity { character: 'x', blocked, id, color: Color::new(Hue::Red, 200) });
    level.set(at.x, at.y, tile);
}

fn attributes(faction: &str, calmness: i32, thirst: i32) -> Attributes {
    Attributes {
        name: faction.to_string(),
        blocks: true,
        alive: true,
        calmness,
        thirst,
        max_hp: 10,
        hp: 10,
        vision_radius: 8,
        faction: faction.to_string(),
        ..Default::default()
    }
}

#[test]
fn opinions_default_to_neutral_and_start_hostile_between_player_and_monsters() {
    let mut f = Factions::new();
    assert!(f.get(PLAYER, MONSTER).is_hostile());
    assert!(f.get(MONSTER, PLAYER).is_hostile());
    assert_eq!(f.get(MONSTER, MONSTER), Opinion(0));
    f.set_symmetric(NEUTRAL, PLAYER, Opinion(700));
    assert!(f.get(PLAYER, NEUTRAL).is_friendly());
    assert!(!f.get(PLAYER, NEUTRAL).is_hostile());
    f.set(PLAYER, NEUTRAL, Opinion(-200));
    assert!(f.get(PLAYER, NEUTRAL).is_negative());
    assert!(f.get(NEUTRAL, PLAYER).is_positive());
}

#[test]
fn catalog_entries_carry_their_utilities() {
    let agent = Agent::new(Position::new(1, 1), attributes(MONSTER, 300, 900));
    let m = AiAction::meditate(&agent);
    assert_eq!(m.utility, 700);
    assert_eq!(m.pre_conditions.get(&AiPredicate::UnderThreat), Some(false));
    let d = AiAction::drink(&agent, EntityId(4));
    assert_eq!(d.utility, 100);
    assert_eq!(d.pre_conditions.get(&AiPredicate::Have(EntityId(4))), Some(true));
    assert_eq!(d.post_conditions.get(&AiPredicate::Have(EntityId(4))), Some(false));
    let g = AiAction::get(&agent, EntityId(4));
    assert_eq!(g.utility, 0);
    assert_eq!(g.post_conditions.get(&AiPredicate::Have(EntityId(4))), Some(true));
    let a = AiAction::attack(&agent, EntityId(5), 1000);
    assert_eq!(a.utility, 1000);
    assert_eq!(a.action_type, AiActionType::Attack(EntityId(5)));
}

#[test]
fn max_utility_takes_the_first_of_equals() {
    let agent = Agent::new(Position::new(1, 1), attributes(MONSTER, 0, 0));
    let mut actions = AiActions::new(agent);
    assert!(actions.find_max_utility().is_none());
    let agent = Agent::new(Position::new(1, 1), attributes(MONSTER, 0, 0));
    actions.add_action(AiAction::get(&agent, EntityId(1)));
    actions.add_action(AiAction::meditate(&agent));
    actions.add_action(AiAction::attack(&agent, EntityId(2), 1000));
    actions.add_action(AiAction::drink(&agent, EntityId(1)));
    for _ in 0..3 {
        assert_eq!(actions.max_utility_index(), Some(1));
        assert_eq!(actions.find_max_utility().unwrap().action_type, AiActionType::Meditate);
    }
}

/// Thirsty agent, one potable liquid in reach, nobody hostile.
#[test]
fn thirsty_agent_weighs_drinking() {
    let level = open_level(8, 8);
    let mut world = World::new();
    let agent_id = world.spawn(EntityRecord {
        position: Some(Position::new(2, 2)),
        attributes: Some(attributes(MONSTER, 950, 900)),
        liquid: None,
    });
    let water = world.spawn(EntityRecord {
        position: Some(Position::new(2, 3)),
        attributes: Some(attributes(NEUTRAL, 0, 0)),
        liquid: Some(Liquid { potable: true }),
    });
    let fov = Fov::new(&level);
    let factions = Factions::new();
    let agent = Agent::new(Position::new(2, 2), attributes(MONSTER, 950, 900));
    let mut catalog = AiActions::new(agent);
    catalog.setup_actions(&factions, &fov, &world);
    let summary: Vec<(AiActionType, i64)> = catalog.actions.iter().map(|a| (a.action_type, a.utility)).collect();
    assert_eq!(
        summary,
        vec![
            (AiActionType::Meditate, 50),
            (AiActionType::DrinkPotable(water), 100),
            (AiActionType::Get(water), 0),
        ]
    );
    assert_eq!(catalog.state.get(&AiPredicate::UnderThreat), None);
    let best = catalog.find_max_utility().unwrap();
    assert_eq!(best.action_type, AiActionType::DrinkPotable(water));
    assert_eq!(best.post_conditions.get(&AiPredicate::Have(water)), Some(false));
    // Whether the agent holds the liquid is unknown, so neither fetching
    // nor drinking can be planned.
    assert_eq!(catalog.plan(), None);

    let mut data = Data::new(level, agent_id, &vec![]);
    let mut ai = Ai::default();
    ai.schedule_ai_actions(&mut data, agent_id, &world);
    assert_eq!(
        data.action_queue,
        vec![GameAction { actor: GameActor::NonPlayer(agent_id), turn: 1, action: GameActionType::Pass }]
    );
}

/// A hostile actor in view: the agent feels threatened and steps toward it.
#[test]
fn threatened_agent_steps_toward_the_hostile() {
    let mut level = open_level(10, 10);
    let mut world = World::new();
    let player = world.spawn(EntityRecord {
        position: Some(Position::new(6, 2)),
        attributes: Some(attributes(PLAYER, 500, 0)),
        liquid: None,
    });
    let monster = world.spawn(EntityRecord {
        position: Some(Position::new(2, 2)),
        attributes: Some(attributes(MONSTER, 500, 0)),
        liquid: None,
    });
    place(&mut level, player, Position::new(6, 2), true);
    place(&mut level, monster, Position::new(2, 2), true);
    let mut data = Data::new(level, player, &vec![monster]);
    data.fov.compute(&Position::new(2, 2), 8);
    assert!(data.fov.is_in_fov(6, 2));

    let agent = Agent::new(Position::new(2, 2), attributes(MONSTER, 500, 0));
    let mut catalog = AiActions::new(agent);
    catalog.setup_actions(&data.factions, &data.fov, &world);
    assert_eq!(catalog.state.get(&AiPredicate::UnderThreat), Some(true));
    let summary: Vec<(AiActionType, i64)> = catalog.actions.iter().map(|a| (a.action_type, a.utility)).collect();
    assert_eq!(summary, vec![(AiActionType::Meditate, 500), (AiActionType::Attack(player), 1000)]);
    assert_eq!(catalog.plan(), Some(vec![AiActionType::Attack(player)]));

    let mut ai = Ai::default();
    ai.schedule_ai_actions(&mut data, monster, &world);
    assert_eq!(
        data.action_queue,
        vec![
            GameAction { actor: GameActor::NonPlayer(monster), turn: 1, action: GameActionType::MoveAttack(1, 0) },
            GameAction { actor: GameActor::NonPlayer(monster), turn: 1, action: GameActionType::Pass },
        ]
    );
}

#[test]
fn hostile_out_of_view_poses_no_threat() {
    let mut level = open_level(10, 10);
    let mut world = World::new();
    let player = world.spawn(EntityRecord {
        position: Some(Position::new(8, 8)),
        attributes: Some(attributes(PLAYER, 500, 0)),
        liquid: None,
    });
    // A wall row hides the player from the monster.
    for x in 0..10 {
        level.set(x, 5, Tile::wall());
    }
    let mut fov = Fov::new(&level);
    fov.compute(&Position::new(2, 2), 8);
    assert!(!fov.is_in_fov(8, 8));
    assert!(fov.is_explored(2, 2));
    assert!(!fov.is_explored(8, 8));
    let agent = Agent::new(Position::new(2, 2), attributes(MONSTER, 200, 0));
    let mut catalog = AiActions::new(agent);
    catalog.setup_actions(&Factions::new(), &fov, &world);
    assert_eq!(catalog.state.get(&AiPredicate::UnderThreat), None);
    let summary: Vec<(AiActionType, i64)> = catalog.actions.iter().map(|a| (a.action_type, a.utility)).collect();
    assert_eq!(summary, vec![(AiActionType::Meditate, 800), (AiActionType::Attack(player), 0)]);
}

#[test]
fn hidden_hostile_leaves_the_agent_passing() {
    let mut level = open_level(10, 10);
    for x in 0..10 {
        level.set(x, 5, Tile::wall());
    }
    let mut world = World::new();
    let player = world.spawn(EntityRecord {
        position: Some(Position::new(2, 8)),
        attributes: Some(attributes(PLAYER, 500, 0)),
        liquid: None,
    });
    let monster = world.spawn(EntityRecord {
        position: Some(Position::new(2, 2)),
        attributes: Some(attributes(MONSTER, 500, 0)),
        liquid: None,
    });
    let mut data = Data::new(level, player, &vec![monster]);
    let mut ai = Ai::default();
    ai.schedule_ai_actions(&mut data, monster, &world);
    assert_eq!(
        data.action_queue,
        vec![GameAction { actor: GameActor::NonPlayer(monster), turn: 1, action: GameActionType::Pass }]
    );
}

#[test]
fn action_for_maps_plan_steps_to_game_actions() {
    let here = Position::new(3, 3);
    let walk = Some(vec![Position::new(3, 3), Position::new(2, 4), Position::new(1, 5)]);
    assert_eq!(Ai::action_for(AiActionType::Meditate, &here, &None), Some(GameActionType::Pass));
    assert_eq!(
        Ai::action_for(AiActionType::Attack(EntityId(1)), &here, &walk),
        Some(GameActionType::MoveAttack(-1, 1))
    );
    assert_eq!(Ai::action_for(AiActionType::Attack(EntityId(1)), &here, &Some(vec![here])), None);
    assert_eq!(Ai::action_for(AiActionType::Attack(EntityId(1)), &here, &None), None);
    assert_eq!(Ai::action_for(AiActionType::Get(EntityId(1)), &here, &walk), None);
}
