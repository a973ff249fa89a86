use rogue_sim::color::{Color, Hue};
use rogue_sim::data::Data;
use rogue_sim::system::GameActor;
use rogue_sim::ecs::{Position, Rect};
use rogue_sim::fov::{Fov, Visibility};
use rogue_sim::grid::{Pos, Size};
use rogue_sim::level::{Level, Tile, TileType};
use rogue_sim::level_gen::{create_h_tunnel, create_player, create_room, create_v_tunnel, fill_rect, make_map, Paint};
use rogue_sim::world::World;

#[test]
fn screen_grid_arithmetic() {
    let p = Pos::new();
    assert_eq!(p, Pos { x: 0, y: 0 });
    let q = Pos { x: 3, y: 4 }.add(Size { w: 2, h: 1 });
    assert_eq!(q, Pos { x: 5, y: 5 });
    assert_eq!(q.subtract(Size { w: 6, h: 1 }), Pos { x: -1, y: 4 });
    assert_eq!(q.to_size(), Size { w: 5, h: 5 });
    assert_eq!(Size::new(), Size { w: 0, h: 0 });
    assert_eq!(Size { w: 4, h: 2 }.add(Size { w: 1, h: 1 }), Size { w: 5, h: 3 });
    assert_eq!(Size { w: 4, h: 2 }.subtract(Size { w: 1, h: 2 }), Size { w: 3, h: 0 });
}

#[test]
fn tiles_show_their_first_entity() {
    let mut tile = Tile::floor();
    assert_eq!(tile.shown_glyph(), '.');
    tile.add_entity(rogue_sim::level::Entity {
        character: 'o',
        blocked: true,
        id: rogue_sim::ecs::EntityId(3),
        color: Color::new(Hue::Green, 128),
    });
    assert_eq!(tile.shown_glyph(), 'o');
    assert_eq!(tile.remove_entity(rogue_sim::ecs::EntityId(3)).map(|e| e.character), Some('o'));
    assert_eq!(Tile::wall().shown_glyph(), '#');
}

#[test]
fn darker_halves_the_value() {
    assert_eq!(Color::new(Hue::Blue, 201).darker(), Color::new(Hue::Blue, 100));
}

#[test]
fn rooms_get_walls_around_a_floor() {
    let mut level = Level::empty(Rect::new(0, 0, 8, 8));
    level.set(1, 1, Tile::floor());
    create_room(&Rect::new(1, 1, 4, 4), &mut level);
    assert_eq!(level.get(1, 1).cell_type, TileType::Floor);
    assert_eq!(level.get(1, 2).cell_type, TileType::Wall);
    assert_eq!(level.get(2, 2).cell_type, TileType::Floor);
    assert_eq!(level.get(3, 3).cell_type, TileType::Floor);
    assert_eq!(level.get(4, 4).cell_type, TileType::Wall);
    assert_eq!(level.get(5, 5).cell_type, TileType::Void);
    create_h_tunnel(6, 3, 6, &mut level);
    assert_eq!(level.get(4, 6).cell_type, TileType::Floor);
    assert_eq!(level.get(4, 7).cell_type, TileType::Wall);
    create_v_tunnel(0, 2, 6, &mut level);
    assert_eq!(level.get(6, 1).cell_type, TileType::Floor);
    fill_rect(&Rect::new(0, 0, 8, 8), &mut level, Paint::Clear);
    assert!(level.content.iter().all(|t| t.cell_type == TileType::Void));
}

#[test]
fn generated_maps_place_the_player_on_floor() {
    for _ in 0..5 {
        let mut level = Level::empty(Rect::new(0, 0, 40, 30));
        let mut world = World::new();
        let (monsters, start) = make_map(&mut level, &mut world);
        assert_eq!(level.get(start.x, start.y).cell_type, TileType::Floor);
        assert!(monsters.len() <= 30 * 3);
        for m in &monsters {
            let p = world.position(*m).unwrap();
            assert!(level.contains(p.x, p.y));
            assert_ne!(level.get(p.x, p.y).cell_type, TileType::Void);
        }
        let mut fov = Fov::new(&level);
        let player = create_player(&mut level, &mut fov, &mut world, start);
        assert_eq!(world.position(player), Some(start));
        assert_eq!(fov.visibility(start.x, start.y), Some(Visibility::Visible));
        assert_eq!(world.attributes(player).unwrap().faction, "player");
    }
}

#[test]
fn explored_cells_stay_explored() {
    let mut level = Level::empty(Rect::new(0, 0, 12, 3));
    for y in 0..3 {
        for x in 0..12 {
            level.set(x, y, Tile::floor());
        }
    }
    level.set(6, 0, Tile::wall());
    level.set(6, 1, Tile::wall());
    level.set(6, 2, Tile::wall());
    let mut fov = Fov::new(&level);
    assert_eq!(fov.visibility(1, 1), None);
    fov.compute(&Position::new(1, 1), 4);
    assert_eq!(fov.visibility(2, 1), Some(Visibility::Visible));
    assert_eq!(fov.visibility(9, 1), None);
    fov.compute(&Position::new(9, 1), 4);
    assert_eq!(fov.visibility(2, 1), Some(Visibility::Explored));
    assert_eq!(fov.visibility(9, 1), Some(Visibility::Visible));
    assert!(!fov.is_in_fov(-1, 0));
    fov.reset_explored();
    assert!(!fov.is_explored(2, 1));
}

#[test]
fn generated_session_starts_with_the_player() {
    let mut world = World::new();
    let data = Data::generate(&mut world);
    assert_eq!(data.actor_turn(), Some(GameActor::Player(data.player)));
    assert_eq!(data.turns(), 1);
    let start = world.position(data.player).unwrap();
    assert!(data.fov.is_in_fov(start.x, start.y));
    assert_eq!(data.event_queue.len() + 1, world.entities.len());
}
