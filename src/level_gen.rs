use vstd::prelude::*;
use crate::color::{Color, Hue};
use crate::ecs::{Attributes, EntityId, Index, Position, Rect};
use crate::factions;
use crate::fov::Fov;
use crate::level::{Entity, Level, Tile, TileType};
use crate::world::{EntityRecord, World};
use vstd::string::StringExecFns;

verus! {

pub const ROOM_MAX_SIZE: i32 = 10;
pub const ROOM_MIN_SIZE: i32 = 6;
pub const MAX_ROOMS: i32 = 30;
pub const MAX_ROOM_MONSTERS: i32 = 3;

/// Relies on rand's `Rng::gen_range` on the thread-local generator: a value
/// in `[low, high)`; it panics unless `low < high`.
#[verifier::external_body]
fn random_in(low: i32, high: i32) -> (r: i32)
    requires
        low < high,
    ensures
        low <= r < high,
{
    rand::Rng::gen_range(&mut rand::thread_rng(), low, high)
}

/// Relies on rand's `random` for a `bool`: a fair coin.
#[verifier::external_body]
fn coin() -> (r: bool) {
    rand::random::<bool>()
}

/// How painting a rectangle changes its tiles.
#[derive(PartialEq, Eq, Structural, Clone, Copy, Debug)]
pub enum Paint {
    /// Void becomes wall; anything else stays.
    WallOverVoid,
    /// Everything becomes open floor.
    Floor,
    /// Everything becomes empty void.
    Clear,
}

/// `new` is what painting `old` gives.
pub open spec fn painted(old: Tile, new: Tile, paint: Paint) -> bool {
    match paint {
        Paint::WallOverVoid => if old.cell_type == TileType::Void {
            new.cell_type == TileType::Wall && new.blocked && new.block_sight && new.entities@.len() == 0
        } else {
            new == old
        },
        Paint::Floor => new.cell_type == TileType::Floor && !new.blocked && !new.block_sight
            && new.entities@.len() == 0,
        Paint::Clear => new.cell_type == TileType::Void && !new.blocked && !new.block_sight
            && new.entities@.len() == 0,
    }
}

/// `(x, y)` lies in `r`.
pub open spec fn in_rect(r: Rect, x: int, y: int) -> bool {
    r.x <= x < r.x + r.width && r.y <= y < r.y + r.height
}

/// The cell stored at index `k` of the level.
pub open spec fn cell_at(level: &Level, k: int) -> (int, int) {
    (level.area.x + k % level.area.width as int, level.area.y + k / level.area.width as int)
}

/// Paints every tile of `room` that lies on the map.
pub fn fill_rect(room: &Rect, map: &mut Level, paint: Paint)
    requires
        old(map).wf(),
    ensures
        final(map).wf(),
        final(map).area == old(map).area,
        forall|k: int|
            0 <= k < final(map).content@.len() ==> if in_rect(
                *room,
                cell_at(old(map), k).0,
                cell_at(old(map), k).1,
            ) {
                painted(old(map).content@[k], #[trigger] final(map).content@[k], paint)
            } else {
                final(map).content@[k] == old(map).content@[k]
            },
{
    let mut i: usize = 0;
    while i < map.content.len()
        invariant
            0 <= i <= map.content@.len(),
            map.wf(),
            map.area == old(map).area,
            map.content@.len() == old(map).content@.len(),
            forall|k: int|
                0 <= k < i ==> if in_rect(*room, cell_at(old(map), k).0, cell_at(old(map), k).1) {
                    painted(old(map).content@[k], #[trigger] map.content@[k], paint)
                } else {
                    map.content@[k] == old(map).content@[k]
                },
            forall|k: int| i <= k < map.content@.len() ==> #[trigger] map.content@[k] == old(map).content@[k],
        decreases map.content.len() - i,
    {
        let (x, y) = map.pos_of(i);
        let inside = room.x as i64 <= x as i64 && (x as i64) < room.x as i64 + room.width as i64
            && room.y as i64 <= y as i64 && (y as i64) < room.y as i64 + room.height as i64;
        if inside {
            match paint {
                Paint::WallOverVoid => {
                    if map.content[i].cell_type == TileType::Void {
                        map.content.set(i, Tile::wall());
                    }
                },
                Paint::Floor => {
                    map.content.set(i, Tile::floor());
                },
                Paint::Clear => {
                    map.content.set(i, Tile::void());
                },
            }
        }
        i = i + 1;
    }
}

/// Carves a room: its inside (one cell in from each edge) becomes floor and
/// the void around it becomes wall.
pub fn create_room(room: &Rect, map: &mut Level)
    requires
        old(map).wf(),
        room.width >= 0,
        room.height >= 0,
        room.x + room.width <= i32::MAX,
        room.y + room.height <= i32::MAX,
    ensures
        final(map).wf(),
        final(map).area == old(map).area,
        forall|k: int|
            0 <= k < final(map).content@.len() ==> {
                let (x, y) = cell_at(old(map), k);
                if in_rect(inner_rect(*room), x, y) {
                    painted(old(map).content@[k], #[trigger] final(map).content@[k], Paint::Floor)
                } else if in_rect(*room, x, y) {
                    painted(old(map).content@[k], final(map).content@[k], Paint::WallOverVoid)
                } else {
                    final(map).content@[k] == old(map).content@[k]
                }
            },
{
    fill_rect(room, map, Paint::WallOverVoid);
    let inner = room.inner(1, 1);
    fill_rect(&inner, map, Paint::Floor);
}

/// The inside of a room: one cell in from each edge, for rooms at least two
/// cells across.
pub open spec fn inner_rect(room: Rect) -> Rect {
    let h = crate::ecs::min_int(1, crate::ecs::half(room.width as int));
    let v = crate::ecs::min_int(1, crate::ecs::half(room.height as int));
    Rect {
        x: (room.x + h) as i32,
        y: (room.y + v) as i32,
        width: (room.width - 2 * h) as i32,
        height: (room.height - 2 * v) as i32,
    }
}

/// Carves a horizontal corridor along row `y` between columns `x1` and
/// `x2`, walled on both sides.
pub fn create_h_tunnel(x1: i32, x2: i32, y: i32, map: &mut Level)
    requires
        old(map).wf(),
        -1_000_000 <= x1 <= 1_000_000,
        -1_000_000 <= x2 <= 1_000_000,
        -1_000_000 <= y <= 1_000_000,
    ensures
        final(map).wf(),
        final(map).area == old(map).area,
{
    let left = if x1 < x2 { x1 } else { x2 };
    let right = if x1 < x2 { x2 } else { x1 };
    let top = y - 1;
    let bottom = y + 1;
    let rect = Rect::new(left, top, right - left + 1, bottom - top + 1);
    create_room(&rect, map);
}

/// Carves a vertical corridor along column `x` between rows `y1` and `y2`,
/// walled on both sides.
pub fn create_v_tunnel(y1: i32, y2: i32, x: i32, map: &mut Level)
    requires
        old(map).wf(),
        -1_000_000 <= y1 <= 1_000_000,
        -1_000_000 <= y2 <= 1_000_000,
        -1_000_000 <= x <= 1_000_000,
    ensures
        final(map).wf(),
        final(map).area == old(map).area,
{
    let top = if y1 < y2 { y1 } else { y2 };
    let bottom = if y1 < y2 { y2 } else { y1 };
    let left = x - 1;
    let right = x + 1;
    let rect = Rect::new(left, top, right - left + 1, bottom - top + 1);
    create_room(&rect, map);
}

/// The map's area is within a million cells of the origin on each axis.
pub open spec fn modest(area: Rect) -> bool {
    &&& -1_000_000 <= area.x
    &&& -1_000_000 <= area.y
    &&& area.x + area.width <= 1_000_000
    &&& area.y + area.height <= 1_000_000
}

fn monster(name: &str, hp: i32) -> (a: Attributes)
    ensures
        a.faction@ == factions::MONSTER@,
        a.hp == hp,
{
    Attributes {
        name: String::from_str(name),
        blocks: true,
        alive: true,
        goodness: 0,
        lawfulness: 0,
        calmness: 0,
        thirst: 0,
        max_hp: hp,
        hp: hp,
        vision_radius: 0,
        faction: String::from_str(factions::MONSTER),
    }
}

/// Puts up to three monsters, four in five of them orcs and the rest
/// trolls, on free cells inside `room`.
pub fn place_objects(room: &Rect, level_map: &mut Level, world: &mut World, entities: &mut Vec<EntityId>)
    requires
        old(level_map).wf(),
        room.width >= 2,
        room.height >= 2,
        in_rect(old(level_map).area, room.x as int, room.y as int),
        room.x + room.width <= old(level_map).area.x + old(level_map).area.width,
        room.y + room.height <= old(level_map).area.y + old(level_map).area.height,
        forall|i: int| 0 <= i < old(entities)@.len() ==> (#[trigger] old(entities)@[i]).0 < old(world).entities@.len(),
    ensures
        final(level_map).wf(),
        final(level_map).area == old(level_map).area,
        final(world).entities@.len() >= old(world).entities@.len(),
        final(world).entities@.len() <= old(world).entities@.len() + MAX_ROOM_MONSTERS,
        final(entities)@.len() <= old(entities)@.len() + MAX_ROOM_MONSTERS,
        forall|i: int| 0 <= i < final(entities)@.len() ==> (#[trigger] final(entities)@[i]).0 < final(world).entities@.len(),
{
    let num_monsters = random_in(0, MAX_ROOM_MONSTERS + 1);
    let mut index: Index<EntityId> = Index::new();
    let mut n: i32 = 0;
    while n < num_monsters
        invariant
            0 <= n <= num_monsters <= MAX_ROOM_MONSTERS + 1,
            room.width >= 2,
            room.height >= 2,
            in_rect(old(level_map).area, room.x as int, room.y as int),
            room.x + room.width <= old(level_map).area.x + old(level_map).area.width,
            room.y + room.height <= old(level_map).area.y + old(level_map).area.height,
            level_map.wf(),
            level_map.area == old(level_map).area,
            index.wf(),
            world.entities@.len() >= old(world).entities@.len(),
            world.entities@.len() <= old(world).entities@.len() + n,
            entities@.len() <= old(entities)@.len() + n,
            forall|i: int| 0 <= i < entities@.len() ==> (#[trigger] entities@[i]).0 < world.entities@.len(),
        decreases num_monsters - n,
    {
        let x = random_in(room.x + 1, room.x + room.width);
        let y = random_in(room.y + 1, room.y + room.height);
        let at = Position { x, y };
        if !index.is_blocked(&at) && world.entities.len() < u32::MAX as usize {
            let orc = random_in(0, 10) < 8;
            let (glyph, attributes, color) = if orc {
                ('o', monster("orc", 10), Color::new(Hue::Green, 128))
            } else {
                ('T', monster("troll", 16), Color::new(Hue::Green, 255))
            };
            let e = world.spawn(EntityRecord { position: Some(at), attributes: Some(attributes), liquid: None });
            entities.push(e);
            level_map.add_entity(x, y, Entity { character: glyph, blocked: true, id: e, color: color });
            index.add(at, e);
        }
        n = n + 1;
    }
}

/// Lays out up to thirty non-overlapping rooms joined by corridors, each
/// room after the first joined to the one before, and puts monsters in them.
/// Returns the monsters and the centre of the first room, where the player
/// starts.
pub fn make_map(level_map: &mut Level, world: &mut World) -> (r: (Vec<EntityId>, Position))
    requires
        old(level_map).wf(),
        modest(old(level_map).area),
        old(level_map).area.width > ROOM_MAX_SIZE,
        old(level_map).area.height > ROOM_MAX_SIZE,
    ensures
        final(level_map).wf(),
        final(level_map).area == old(level_map).area,
        final(world).entities@.len() >= old(world).entities@.len(),
        final(world).entities@.len() <= old(world).entities@.len() + MAX_ROOMS * MAX_ROOM_MONSTERS,
        r.0@.len() <= MAX_ROOMS * MAX_ROOM_MONSTERS,
        forall|i: int| 0 <= i < r.0@.len() ==> (#[trigger] r.0@[i]).0 < final(world).entities@.len(),
        final(level_map).in_bounds(r.1.x as int, r.1.y as int),
{
    let mut entities: Vec<EntityId> = Vec::new();
    let area = level_map.area;
    fill_rect(&area, level_map, Paint::Clear);
    let mut rooms: Vec<Rect> = Vec::new();
    let mut starting_position = Position::new(area.x, area.y);
    let mut attempt: i32 = 0;
    while attempt < MAX_ROOMS
        invariant
            0 <= attempt <= MAX_ROOMS,
            level_map.wf(),
            level_map.area == area,
            area == old(level_map).area,
            modest(area),
            area.width > ROOM_MAX_SIZE,
            area.height > ROOM_MAX_SIZE,
            world.entities@.len() >= old(world).entities@.len(),
            world.entities@.len() <= old(world).entities@.len() + attempt * MAX_ROOM_MONSTERS,
            entities@.len() <= attempt * MAX_ROOM_MONSTERS,
            forall|i: int| 0 <= i < entities@.len() ==> (#[trigger] entities@[i]).0 < world.entities@.len(),
            level_map.in_bounds(starting_position.x as int, starting_position.y as int),
            forall|i: int|
                0 <= i < rooms@.len() ==> {
                    let r = #[trigger] rooms@[i];
                    &&& ROOM_MIN_SIZE <= r.width <= ROOM_MAX_SIZE
                    &&& ROOM_MIN_SIZE <= r.height <= ROOM_MAX_SIZE
                    &&& area.x <= r.x
                    &&& r.x + r.width <= area.x + area.width
                    &&& area.y <= r.y
                    &&& r.y + r.height <= area.y + area.height
                },
        decreases MAX_ROOMS - attempt,
    {
        let w = random_in(ROOM_MIN_SIZE, ROOM_MAX_SIZE + 1);
        let h = random_in(ROOM_MIN_SIZE, ROOM_MAX_SIZE + 1);
        let x = random_in(area.x, area.x + area.width - w);
        let y = random_in(area.y, area.y + area.height - h);
        let new_room = Rect::new(x, y, w, h);
        let mut failed = false;
        let mut j: usize = 0;
        while j < rooms.len()
            invariant
                0 <= j <= rooms@.len(),
                modest(area),
                forall|i: int|
                    0 <= i < rooms@.len() ==> {
                        let r = #[trigger] rooms@[i];
                        &&& r.width >= 0
                        &&& r.height >= 0
                        &&& area.x <= r.x
                        &&& r.x + r.width <= area.x + area.width
                        &&& area.y <= r.y
                        &&& r.y + r.height <= area.y + area.height
                    },
                new_room.width >= 0,
                new_room.height >= 0,
                area.x <= new_room.x,
                new_room.x + new_room.width <= area.x + area.width,
                area.y <= new_room.y,
                new_room.y + new_room.height <= area.y + area.height,
            decreases rooms.len() - j,
        {
            if new_room.intersects(&rooms[j]) {
                failed = true;
            }
            j = j + 1;
        }
        if !failed {
            create_room(&new_room, level_map);
            let new_center = new_room.center();
            if rooms.len() == 0 {
                starting_position = new_center;
            } else {
                let prev_center = rooms[rooms.len() - 1].center();
                if coin() {
                    create_h_tunnel(prev_center.x, new_center.x, prev_center.y, level_map);
                    create_v_tunnel(prev_center.y, new_center.y, new_center.x, level_map);
                } else {
                    create_v_tunnel(prev_center.y, new_center.y, prev_center.x, level_map);
                    create_h_tunnel(prev_center.x, new_center.x, new_center.y, level_map);
                }
            }
            place_objects(&new_room, level_map, world, &mut entities);
            rooms.push(new_room);
        }
        attempt = attempt + 1;
    }
    (entities, starting_position)
}

/// Puts the player, of the player's faction and seeing twenty cells far, on
/// `start`, and computes what they see from there.
pub fn create_player(level: &mut Level, fov: &mut Fov, world: &mut World, start: Position) -> (e: EntityId)
    requires
        old(level).wf(),
        old(fov).wf(),
        old(fov).area() == old(level).area,
        old(level).in_bounds(start.x as int, start.y as int),
        old(world).entities@.len() < u32::MAX,
    ensures
        final(level).wf(),
        final(level).area == old(level).area,
        final(fov).wf(),
        final(fov).area() == old(fov).area(),
        e.0 == old(world).entities@.len(),
        final(world).entities@.len() == old(world).entities@.len() + 1,
        final(world).position_of(e) == Some(start),
        final(world).entities@[e.0 as int].attributes->0.faction@ == factions::PLAYER@,
{
    let vision_radius: u16 = 20;
    fov.compute(&start, vision_radius);
    let attributes = Attributes {
        name: String::from_str("player"),
        blocks: true,
        alive: true,
        goodness: 0,
        lawfulness: 0,
        calmness: 0,
        thirst: 0,
        max_hp: 30,
        hp: 30,
        vision_radius: vision_radius,
        faction: String::from_str(factions::PLAYER),
    };
    let e = world.spawn(EntityRecord { position: Some(start), attributes: Some(attributes), liquid: None });
    level.add_entity(
        start.x,
        start.y,
        Entity { character: '@', blocked: true, id: e, color: Color::new(Hue::White, 255) },
    );
    e
}

} // verus!
