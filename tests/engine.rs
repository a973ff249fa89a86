use rogue_sim::ai::Ai;
use rogue_sim::color::{Color, Hue};
use rogue_sim::data::Data;
use rogue_sim::ecs::{Attributes, Distance, EntityId, Index, Occupier, Position, Rect};
use rogue_sim::events::Time;
use rogue_sim::level::{Entity, Level, Tile};
use rogue_sim::path::PathFinder;
use rogue_sim::system::{Collider, GameActionType, GameActor, GameEvent, GameSystem, TurnStatus};
use rogue_sim::world::{EntityRecord, World};

fn open_level(width: i32, height: i32) -> Level {
    let mut level = Level::empty(Rect::new(0, 0, width, height));
    for y in 0..height {
        for x in 0..width {
            level.set(x, y, Tile::floor());
        }
    }
    level
}

fn place(level: &mut Level, id: EntityId, at: Position) {
    let mut tile = level.get(at.x, at.y).clone();
    tile.add_entity(Entity { character: '@', blocked: true, id, color: Color::new(Hue::White, 255) });
    level.set(at.x, at.y, tile);
}

fn walker(faction: &str) -> Attributes {
    Attributes { faction: faction.to_string(), vision_radius: 5, ..Default::default() }
}

#[test]
fn it_translates_to_and_from_coordinates() {
    let rect = Rect::new(200, 100, 50, 80);
    let buf = Level::empty(rect);

    // First cell is at the upper left corner.
    assert_eq!(buf.pos_of(0), (200, 100));
    assert_eq!(buf.index_of(200, 100), 0);

    // Last cell is in the lower right.
    assert_eq!(buf.pos_of(buf.content.len() - 1), (249, 179));
    assert_eq!(buf.index_of(249, 179), buf.content.len() - 1);
}

#[test]
fn rect_geometry() {
    let r = Rect::new(2, 3, 10, 6);
    assert_eq!((r.left(), r.right(), r.top(), r.bottom()), (2, 12, 3, 9));
    assert_eq!(r.area(), 60);
    assert_eq!(r.top_left(), Position::new(2, 3));
    assert_eq!(r.bottom_right(), Position::new(12, 9));
    assert_eq!(r.center(), Position::new(7, 6));
    assert_eq!(r.inner(1, 1), Rect::new(3, 4, 8, 4));
    assert_eq!(r.inner(9, 9), Rect::new(7, 6, 0, 0));
    assert_eq!(Rect::new_sized(4, 5), Rect::new(0, 0, 4, 5));
    let s = Rect::new(8, 1, 10, 4);
    assert!(r.intersects(&s));
    assert_eq!(r.intersection(&s), Rect::new(8, 3, 4, 2));
    assert!(!r.intersects(&Rect::new(12, 3, 2, 2)));
    assert_eq!(r.union(&s), Rect::new(2, 1, 6, 2));
}

#[test]
fn position_arithmetic() {
    let p = Position::new(3, -2);
    assert_eq!(p.delta(2, 5), Position::new(5, 3));
    assert_eq!(p.diff(&Position::new(0, 0)), Distance { dx: -3, dy: 2 });
    assert_eq!(p.distance(&Position::new(0, 0)), 5);
    let n = p.neighbours();
    assert_eq!(n.len(), 8);
    assert_eq!(n[0], Position::new(2, -3));
    assert_eq!(n[7], Position::new(4, -1));
    assert!(!n.contains(&p));
}

#[test]
fn distance_normalises_to_a_single_step() {
    assert_eq!(Distance { dx: 10, dy: 1 }.normalize(), Distance { dx: 1, dy: 0 });
    assert_eq!(Distance { dx: -4, dy: 4 }.normalize(), Distance { dx: -1, dy: 1 });
    assert_eq!(Distance { dx: 1, dy: -2 }.normalize(), Distance { dx: 0, dy: -1 });
    assert_eq!(Distance { dx: 2, dy: -3 }.normalize(), Distance { dx: 1, dy: -1 });
    assert_eq!(Distance { dx: 0, dy: 0 }.normalize(), Distance { dx: 0, dy: 0 });
}

#[test]
fn index_tracks_blockers() {
    let mut index = Index::new();
    let a = Position::new(1, 1);
    let b = Position::new(2, 1);
    index.add(a, EntityId(7));
    assert!(index.is_blocked(&a));
    assert_eq!(index.get(&a), Some(&EntityId(7)));
    index.add(a, EntityId(8));
    assert_eq!(index.get(&a), Some(&EntityId(8)));
    index.move_to(&a, b);
    assert!(!index.is_blocked(&a));
    assert_eq!(index.get(&b), Some(&EntityId(8)));
    assert_eq!(index.remove(&b), Some(EntityId(8)));
    assert_eq!(index.remove(&b), None);
    index.add(a, EntityId(1));
    index.clear();
    assert!(!index.is_blocked(&a));
}

#[test]
fn collider_classifies_cells() {
    let mut level = open_level(5, 5);
    level.set(0, 0, Tile::wall());
    place(&mut level, EntityId(3), Position::new(2, 2));
    let c = Collider::new(&level);
    assert_eq!(c.get(&Position::new(0, 0)), Occupier::Wall);
    assert_eq!(c.get(&Position::new(2, 2)), Occupier::Entity(EntityId(3)));
    assert_eq!(c.get(&Position::new(1, 1)), Occupier::Empty);
    assert_eq!(c.get(&Position::new(-1, 1)), Occupier::Wall);
}

#[test]
fn pathfinder_walks_around_walls() {
    let mut level = open_level(7, 5);
    for y in 0..4 {
        level.set(3, y, Tile::wall());
    }
    place(&mut level, EntityId(9), Position::new(6, 0));
    let finder = PathFinder::new(&level);
    let (path, cost) = finder.path(&Position::new(0, 0), &Position::new(6, 0)).unwrap();
    assert_eq!(cost as usize, path.len() - 1);
    assert_eq!(path[0], Position::new(0, 0));
    assert_eq!(*path.last().unwrap(), Position::new(6, 0));
    for w in path.windows(2) {
        assert!((w[0].x - w[1].x).abs() <= 1 && (w[0].y - w[1].y).abs() <= 1 && w[0] != w[1]);
    }
    assert!(path.iter().any(|p| *p == Position::new(3, 4)));
    assert_eq!(finder.move_cost(&Position::new(3, 0), &Position::new(6, 0)), u32::MAX);
    assert_eq!(finder.move_cost(&Position::new(6, 0), &Position::new(6, 0)), 1);
    assert_eq!(finder.move_cost(&Position::new(6, 0), &Position::new(5, 0)), u32::MAX);
    level.set(3, 4, Tile::wall());
    let finder = PathFinder::new(&level);
    assert!(finder.path(&Position::new(0, 0), &Position::new(6, 0)).is_none());
}

#[test]
fn moving_into_cells() {
    let mut level = open_level(6, 6);
    level.set(3, 2, Tile::wall());
    let mut world = World::new();
    let player = world.spawn(EntityRecord { position: Some(Position::new(2, 2)), attributes: Some(walker("player")), liquid: None });
    let other = world.spawn(EntityRecord { position: Some(Position::new(2, 3)), attributes: Some(walker("monster")), liquid: None });
    place(&mut level, player, Position::new(2, 2));
    place(&mut level, other, Position::new(2, 3));
    let mut data = Data::new(level, player, &vec![other]);
    let mut system = GameSystem::new();
    let actor = GameActor::Player(player);

    assert_eq!(system.move_or_attack(actor, 1, 0, &mut data, &mut world), TurnStatus::Continue);
    assert_eq!(world.position(player), Some(Position::new(2, 2)));
    assert_eq!(system.move_or_attack(actor, 0, 1, &mut data, &mut world), TurnStatus::EndTurn(Time::new(1, 0)));
    assert_eq!(world.position(player), Some(Position::new(2, 2)));
    assert_eq!(system.move_or_attack(actor, -1, 0, &mut data, &mut world), TurnStatus::EndTurn(Time::new(1, 0)));
    assert_eq!(world.position(player), Some(Position::new(1, 2)));
    assert!(data.level.get(1, 2).entities.iter().any(|e| e.id == player));
    assert!(data.level.get(2, 2).entities.is_empty());
    assert!(data.fov.is_in_fov(1, 2));
    assert_eq!(system.move_or_attack(GameActor::NonPlayer(EntityId(40)), 1, 0, &mut data, &mut world), TurnStatus::Stop);
}

#[test]
fn idle_engine_with_nothing_scheduled_halts() {
    let level = open_level(3, 3);
    let mut world = World::new();
    let player = world.spawn(EntityRecord { position: Some(Position::new(1, 1)), attributes: Some(walker("player")), liquid: None });
    let mut data = Data::new(level, player, &vec![]);
    data.end_turn(GameActor::Player(player));
    assert!(data.action_queue.is_empty());
    assert!(!data.event_queue.has_next());
    let mut system = GameSystem::new();
    let mut ai = Ai::default();
    assert!(!system.step(&mut data, &mut ai, &mut world));
    assert!(data.is_finished());
    assert_eq!(data.actor_turn(), None);
}

#[test]
fn engine_hands_turns_out_in_time_order() {
    let level = open_level(6, 6);
    let mut world = World::new();
    let player = world.spawn(EntityRecord { position: Some(Position::new(1, 1)), attributes: Some(walker("player")), liquid: None });
    let npc = world.spawn(EntityRecord { position: Some(Position::new(4, 4)), attributes: Some(walker("neutral")), liquid: None });
    let mut data = Data::new(level, player, &vec![npc]);
    assert_eq!(data.actor_turn(), Some(GameActor::Player(player)));
    assert_eq!(data.turns(), 1);
    let mut system = GameSystem::new();
    let mut ai = Ai::default();

    // Waiting for the player: nothing happens.
    assert!(!system.step(&mut data, &mut ai, &mut world));
    assert_eq!(data.actor_turn(), Some(GameActor::Player(player)));

    // The player passes: the neutral actor's turn comes at tick one.
    data.action(GameActor::Player(player), GameActionType::Pass);
    assert!(system.step(&mut data, &mut ai, &mut world));
    assert_eq!(data.actor_turn(), Some(GameActor::NonPlayer(npc)));
    assert_eq!(data.time, Time::new(1, 0));

    // The actor has nothing to plan, passes, and the player's turn is next.
    assert!(system.step(&mut data, &mut ai, &mut world));
    assert_eq!(data.actor_turn(), Some(GameActor::Player(player)));
    assert_eq!(data.turns(), 2);
    assert_eq!(data.event_queue.peek(), Some((&Time::new(2, 0), &GameEvent::Turn(GameActor::NonPlayer(npc)))));
    assert!(!system.run(&mut data, &mut ai, &mut world, 100));
}

#[test]
fn stop_ends_the_turn_without_rescheduling() {
    let level = open_level(3, 3);
    let mut world = World::new();
    let player = world.spawn(EntityRecord { position: Some(Position::new(1, 1)), attributes: Some(walker("player")), liquid: None });
    let mut data = Data::new(level, player, &vec![]);
    data.action(GameActor::Player(player), GameActionType::Stop);
    data.action(GameActor::Player(player), GameActionType::Pass);
    let mut system = GameSystem::new();
    let mut ai = Ai::default();
    assert!(!system.step(&mut data, &mut ai, &mut world));
    assert!(data.is_finished());
    assert!(data.action_queue.is_empty());
}

#[test]
fn look_moves_the_cursor_without_ending_the_turn() {
    let level = open_level(5, 5);
    let mut world = World::new();
    let player = world.spawn(EntityRecord { position: Some(Position::new(2, 2)), attributes: Some(walker("player")), liquid: None });
    let mut data = Data::new(level, player, &vec![]);
    data.action(GameActor::Player(player), GameActionType::Look(1, 0));
    data.action(GameActor::Player(player), GameActionType::Look(0, 1));
    let mut system = GameSystem::new();
    let mut ai = Ai::default();
    assert!(!system.step(&mut data, &mut ai, &mut world));
    assert_eq!(data.cursor, Some(Position::new(3, 3)));
    assert_eq!(data.actor_turn(), Some(GameActor::Player(player)));
    data.action(GameActor::Player(player), GameActionType::Play);
    system.step(&mut data, &mut ai, &mut world);
    assert_eq!(data.cursor, None);
}

#[test]
fn pass_ends_the_turn_and_drops_the_rest() {
    let level = open_level(5, 5);
    let mut world = World::new();
    let player = world.spawn(EntityRecord { position: Some(Position::new(2, 2)), attributes: Some(walker("player")), liquid: None });
    let mut data = Data::new(level, player, &vec![]);
    data.action(GameActor::Player(player), GameActionType::Pass);
    data.action(GameActor::Player(player), GameActionType::MoveAttack(1, 0));
    let mut system = GameSystem::new();
    let mut ai = Ai::default();
    assert!(!system.run(&mut data, &mut ai, &mut world, 10));
    assert_eq!(world.position(player), Some(Position::new(2, 2)));
    assert_eq!(data.time, Time::new(1, 0));
    assert_eq!(data.actor_turn(), Some(GameActor::Player(player)));
    assert_eq!(data.turns(), 2);
    assert!(data.action_queue.is_empty());
    assert!(!data.event_queue.has_next());
    assert!(!data.is_finished());
}

#[test]
fn stop_halts_an_engine_with_nothing_scheduled() {
    let level = open_level(3, 3);
    let mut world = World::new();
    let player = world.spawn(EntityRecord { position: Some(Position::new(1, 1)), attributes: Some(walker("player")), liquid: None });
    let mut data = Data::new(level, player, &vec![]);
    data.action(GameActor::Player(player), GameActionType::Stop);
    let mut system = GameSystem::new();
    let mut ai = Ai::default();
    assert!(!system.run(&mut data, &mut ai, &mut world, 10));
    assert!(data.is_finished());
    assert_eq!(data.actor_turn(), None);
    assert_eq!(data.time, Time::new(0, 0));
}

#[test]
fn bumping_leaves_the_map_alone() {
    let mut level = open_level(6, 6);
    level.set(3, 2, Tile::wall());
    let mut world = World::new();
    let player = world.spawn(EntityRecord { position: Some(Position::new(2, 2)), attributes: Some(walker("player")), liquid: None });
    let other = world.spawn(EntityRecord { position: Some(Position::new(2, 3)), attributes: Some(walker("monster")), liquid: None });
    place(&mut level, player, Position::new(2, 2));
    place(&mut level, other, Position::new(2, 3));
    let mut data = Data::new(level, player, &vec![]);
    let mut system = GameSystem::new();
    system.move_or_attack(GameActor::Player(player), 1, 0, &mut data, &mut world);
    system.move_or_attack(GameActor::Player(player), 0, 1, &mut data, &mut world);
    assert!(data.level.get(2, 2).entities.iter().any(|e| e.id == player));
    assert!(data.level.get(2, 3).entities.iter().any(|e| e.id == other));
    assert_eq!(world.position(other), Some(Position::new(2, 3)));
    assert!(!data.fov.is_in_fov(2, 2));
    system.move_or_attack(GameActor::Player(player), -1, -1, &mut data, &mut world);
    assert!(data.level.get(1, 1).entities.iter().any(|e| e.id == player));
    assert!(data.fov.is_in_fov(1, 1));
}
