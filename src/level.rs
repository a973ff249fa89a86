use vstd::prelude::*;
use crate::color::{Color, Hue};
use crate::ecs::{EntityId, Position, Rect};

verus! {

pub const BLANK: char = ' ';
pub const LINE_BLOCK: char = '#';
pub const MIDDLE_DOT: char = '.';

/// The longest side a map may have: shadow-casting squares offsets along a
/// side in `i32`, and twice the square of this side still fits.
pub const MAX_SIDE: i32 = 32767;

/// An entity as a map cell sees it: how it is drawn and whether it blocks.
#[derive(PartialEq, Eq, Structural, Clone, Copy, Debug)]
pub struct Entity {
    pub character: char,
    pub blocked: bool,
    pub id: EntityId,
    pub color: Color,
}

/// What a cell is made of.
#[derive(PartialEq, Eq, Structural, Clone, Copy, Debug)]
pub enum TileType {
    Floor,
    Wall,
    Void,
}

/// One cell of the map: its terrain and the entities standing on it.
#[derive(Clone, Debug)]
pub struct Tile {
    pub entities: Vec<Entity>,
    pub blocked: bool,
    pub block_sight: bool,
    pub cell_type: TileType,
    pub glyph: char,
    pub color: Color,
}

/// Two tiles have the same terrain and look.
pub open spec fn same_terrain(a: Tile, b: Tile) -> bool {
    &&& a.blocked == b.blocked
    &&& a.block_sight == b.block_sight
    &&& a.cell_type == b.cell_type
    &&& a.glyph == b.glyph
    &&& a.color == b.color
}

/// Position `i` holds the first entity named `id`.
pub open spec fn first_of(entities: Seq<Entity>, id: EntityId, i: int) -> bool {
    &&& 0 <= i < entities.len()
    &&& entities[i].id == id
    &&& forall|j: int| 0 <= j < i ==> (#[trigger] entities[j]).id != id
}

/// Some entity is named `id`.
pub open spec fn holds(entities: Seq<Entity>, id: EntityId) -> bool {
    exists|i: int| 0 <= i < entities.len() && (#[trigger] entities[i]).id == id
}

/// `new` is the tiles `old` with the first entity named `id` taken off the
/// tile stored at `k1` and put last on the tile stored at `k2`; nothing
/// changes if no entity of the first tile has that name.
pub open spec fn entity_moved(old: Seq<Tile>, new: Seq<Tile>, id: EntityId, k1: int, k2: int) -> bool {
    &&& new.len() == old.len()
    &&& forall|k: int| 0 <= k < new.len() && k != k1 && k != k2 ==> #[trigger] new[k] == old[k]
    &&& if holds(old[k1].entities@, id) {
        exists|i: int|
            #[trigger] first_of(old[k1].entities@, id, i) && same_terrain(new[k1], old[k1])
                && same_terrain(new[k2], old[k2]) && if k1 == k2 {
                new[k1].entities@ == old[k1].entities@.remove(i).push(old[k1].entities@[i])
            } else {
                &&& new[k1].entities@ == old[k1].entities@.remove(i)
                &&& new[k2].entities@ == old[k2].entities@.push(old[k1].entities@[i])
            }
    } else {
        new == old
    }
}

/// Whether some entity on the tile blocks movement.
pub open spec fn has_blocker(entities: Seq<Entity>) -> bool {
    exists|i: int| 0 <= i < entities.len() && (#[trigger] entities[i]).blocked
}

impl Tile {
    /// Empty void, passable and transparent.
    pub fn void() -> (t: Tile)
        ensures
            t.entities@ == Seq::<Entity>::empty(),
            !t.blocked,
            !t.block_sight,
            t.cell_type == TileType::Void,
            t.glyph == BLANK,
    {
        Tile {
            entities: Vec::new(),
            blocked: false,
            block_sight: false,
            glyph: BLANK,
            cell_type: TileType::Void,
            color: Color::new(Hue::White, 128),
        }
    }

    /// Open floor.
    pub fn floor() -> (t: Tile)
        ensures
            t.entities@ == Seq::<Entity>::empty(),
            !t.blocked,
            !t.block_sight,
            t.cell_type == TileType::Floor,
            t.glyph == MIDDLE_DOT,
    {
        let mut t = Tile::void();
        t.cell_type = TileType::Floor;
        t.glyph = MIDDLE_DOT;
        t
    }

    /// Solid wall, blocking movement and sight.
    pub fn wall() -> (t: Tile)
        ensures
            t.entities@ == Seq::<Entity>::empty(),
            t.blocked,
            t.block_sight,
            t.cell_type == TileType::Wall,
            t.glyph == LINE_BLOCK,
    {
        let mut t = Tile::void();
        t.blocked = true;
        t.block_sight = true;
        t.cell_type = TileType::Wall;
        t.glyph = LINE_BLOCK;
        t
    }

    /// Removes every entity from the tile.
    pub fn reset(&mut self)
        ensures
            final(self).entities@ == Seq::<Entity>::empty(),
            final(self).blocked == old(self).blocked,
            final(self).block_sight == old(self).block_sight,
            final(self).cell_type == old(self).cell_type,
    {
        self.entities.clear();
    }

    pub fn add_entity(&mut self, entity: Entity)
        ensures
            final(self).entities@ == old(self).entities@.push(entity),
            same_terrain(*final(self), *old(self)),
            final(self).blocked == old(self).blocked,
            final(self).block_sight == old(self).block_sight,
            final(self).cell_type == old(self).cell_type,
    {
        self.entities.push(entity);
    }

    /// Takes the first entity with the given handle off the tile.
    pub fn remove_entity(&mut self, id: EntityId) -> (r: Option<Entity>)
        ensures
            same_terrain(*final(self), *old(self)),
            r is None <==> !holds(old(self).entities@, id),
            r is None ==> *final(self) == *old(self),
            r is Some ==> exists|i: int|
                #[trigger] first_of(old(self).entities@, id, i) && r == Some(old(self).entities@[i])
                    && final(self).entities@ == old(self).entities@.remove(i),
    {
        let mut i: usize = 0;
        while i < self.entities.len()
            invariant
                0 <= i <= self.entities@.len(),
                *self == *old(self),
                forall|j: int| 0 <= j < i ==> (#[trigger] self.entities@[j]).id != id,
            decreases self.entities.len() - i,
        {
            if self.entities[i].id == id {
                let e = self.entities.remove(i);
                assert(first_of(old(self).entities@, id, i as int));
                return Some(e);
            }
            i = i + 1;
        }
        None
    }

    /// The character that shows the tile: its first entity's, or else the
    /// terrain glyph.
    pub fn shown_glyph(&self) -> (c: char)
        ensures
            c == if self.entities@.len() > 0 {
                self.entities@[0].character
            } else {
                self.glyph
            },
    {
        if self.entities.len() > 0 {
            self.entities[0].character
        } else {
            self.glyph
        }
    }

    /// The first entity on the tile that blocks movement, if any.
    pub fn blocker(&self) -> (r: Option<EntityId>)
        ensures
            r is None <==> !has_blocker(self.entities@),
            r is Some ==> exists|i: int|
                0 <= i < self.entities@.len() && (#[trigger] self.entities@[i]).blocked
                    && self.entities@[i].id == r->0,
    {
        let mut i: usize = 0;
        while i < self.entities.len()
            invariant
                0 <= i <= self.entities@.len(),
                forall|j: int| 0 <= j < i ==> !(#[trigger] self.entities@[j]).blocked,
            decreases self.entities.len() - i,
        {
            if self.entities[i].blocked {
                return Some(self.entities[i].id);
            }
            i = i + 1;
        }
        None
    }
}

/// The map: a rectangle of tiles stored row by row.
pub struct Level {
    pub area: Rect,
    pub content: Vec<Tile>,
}

impl Level {
    /// The area has a non-negative size, its edges fit in an `i32`, and the
    /// content holds exactly one tile per cell.
    pub open spec fn wf(&self) -> bool {
        &&& 0 <= self.area.width <= MAX_SIDE
        &&& 0 <= self.area.height <= MAX_SIDE
        &&& self.area.x + self.area.width <= i32::MAX
        &&& self.area.y + self.area.height <= i32::MAX
        &&& self.content@.len() == self.area.width * self.area.height
    }

    /// `(x, y)` lies inside the area.
    pub open spec fn in_bounds(&self, x: int, y: int) -> bool {
        &&& self.area.x <= x < self.area.x + self.area.width
        &&& self.area.y <= y < self.area.y + self.area.height
    }

    /// Where the tile of `(x, y)` is stored.
    pub open spec fn index_spec(&self, x: int, y: int) -> int {
        (y - self.area.y) * self.area.width + (x - self.area.x)
    }

    /// The tile at `p`.
    pub open spec fn tile(&self, p: Position) -> Tile {
        self.content@[self.index_spec(p.x as int, p.y as int)]
    }

    proof fn lemma_index_in_range(&self, x: int, y: int)
        requires
            self.wf(),
            self.in_bounds(x, y),
        ensures
            0 <= self.index_spec(x, y) < self.content@.len(),
    {
        let w = self.area.width as int;
        let h = self.area.height as int;
        let dx = x - self.area.x;
        let dy = y - self.area.y;
        assert(0 <= dy * w + dx < w * h) by (nonlinear_arith)
            requires
                0 <= dx < w,
                0 <= dy < h,
        ;
    }

    /// A map of void tiles over `area`.
    pub fn empty(area: Rect) -> (l: Level)
        requires
            0 <= area.width <= MAX_SIDE,
            0 <= area.height <= MAX_SIDE,
            area.x + area.width <= i32::MAX,
            area.y + area.height <= i32::MAX,
        ensures
            l.wf(),
            l.area == area,
            forall|i: int|
                0 <= i < l.content@.len() ==> (#[trigger] l.content@[i]).entities@.len() == 0
                    && !l.content@[i].blocked,
    {
        assert(area.width * area.height <= 32767 * 32767) by (nonlinear_arith)
            requires
                0 <= area.width <= 32767,
                0 <= area.height <= 32767,
        ;
        let size: usize = (area.width as usize) * (area.height as usize);
        let mut content: Vec<Tile> = Vec::new();
        let mut i: usize = 0;
        while i < size
            invariant
                0 <= i <= size,
                content@.len() == i,
                forall|j: int|
                    0 <= j < i ==> (#[trigger] content@[j]).entities@.len() == 0
                        && !content@[j].blocked,
            decreases size - i,
        {
            content.push(Tile::void());
            i = i + 1;
        }
        Level { area, content }
    }

    /// Whether `(x, y)` lies inside the map.
    pub fn contains(&self, x: i32, y: i32) -> (b: bool)
        requires
            self.wf(),
        ensures
            b == self.in_bounds(x as int, y as int),
    {
        x >= self.area.x && x < self.area.x + self.area.width && y >= self.area.y && y < self.area.y
            + self.area.height
    }

    /// The storage index of the tile at `(x, y)`.
    pub fn index_of(&self, x: i32, y: i32) -> (i: usize)
        requires
            self.wf(),
            self.in_bounds(x as int, y as int),
        ensures
            i == self.index_spec(x as int, y as int),
            i < self.content@.len(),
    {
        proof {
            self.lemma_index_in_range(x as int, y as int);
        }
        let n = self.content.len();
        let dx = (x as i64 - self.area.x as i64) as usize;
        let dy = (y as i64 - self.area.y as i64) as usize;
        assert(dy * (self.area.width as int) + dx < self.content@.len());
        dy * (self.area.width as usize) + dx
    }

    /// The coordinates of the tile stored at index `i`.
    pub fn pos_of(&self, i: usize) -> (p: (i32, i32))
        requires
            self.wf(),
            i < self.content@.len(),
        ensures
            self.in_bounds(p.0 as int, p.1 as int),
            self.index_spec(p.0 as int, p.1 as int) == i,
            p.0 == self.area.x + i as int % self.area.width as int,
            p.1 == self.area.y + i as int / self.area.width as int,
    {
        let w = self.area.width as usize;
        assert(w > 0) by (nonlinear_arith)
            requires
                i < w * (self.area.height as int),
                self.area.height >= 0,
                w >= 0,
        ;
        let col = i % w;
        let row = i / w;
        proof {
            vstd::arithmetic::div_mod::lemma_fundamental_div_mod(i as int, w as int);
            assert(row < self.area.height) by (nonlinear_arith)
                requires
                    i == w * row + col,
                    0 <= col,
                    i < w * (self.area.height as int),
                    w > 0,
            ;
        }
        let x = self.area.x + col as i32;
        let y = self.area.y + row as i32;
        assert((row as int) * (w as int) + col as int == i) by (nonlinear_arith)
            requires
                i == w * row + col,
        ;
        (x, y)
    }

    /// Replaces the tile at `(x, y)`.
    pub fn set(&mut self, x: i32, y: i32, tile: Tile)
        requires
            old(self).wf(),
            old(self).in_bounds(x as int, y as int),
        ensures
            final(self).wf(),
            final(self).area == old(self).area,
            final(self).content@ == old(self).content@.update(
                old(self).index_spec(x as int, y as int),
                tile,
            ),
    {
        let i = self.index_of(x, y);
        self.content.set(i, tile);
    }

    /// Puts `entity` on the tile at `(x, y)`.
    pub fn add_entity(&mut self, x: i32, y: i32, entity: Entity)
        requires
            old(self).wf(),
            old(self).in_bounds(x as int, y as int),
        ensures
            final(self).wf(),
            final(self).area == old(self).area,
            final(self).content@.len() == old(self).content@.len(),
            forall|k: int|
                0 <= k < final(self).content@.len() && k != old(self).index_spec(x as int, y as int)
                    ==> #[trigger] final(self).content@[k] == old(self).content@[k],
            ({
                let k = old(self).index_spec(x as int, y as int);
                let t = final(self).content@[k];
                let o = old(self).content@[k];
                &&& t.entities@ == o.entities@.push(entity)
                &&& t.blocked == o.blocked
                &&& t.block_sight == o.block_sight
                &&& t.cell_type == o.cell_type
            }),
    {
        let i = self.index_of(x, y);
        let mut tile = self.content.remove(i);
        tile.add_entity(entity);
        self.content.insert(i, tile);
    }

    /// Moves the entity `id` from the tile at `(x1, y1)` to the tile at
    /// `(x2, y2)`; nothing changes if it is not on the first tile.
    pub fn move_entity(&mut self, id: EntityId, x1: i32, y1: i32, x2: i32, y2: i32)
        requires
            old(self).wf(),
            old(self).in_bounds(x1 as int, y1 as int),
            old(self).in_bounds(x2 as int, y2 as int),
        ensures
            final(self).wf(),
            final(self).area == old(self).area,
            final(self).content@.len() == old(self).content@.len(),
            forall|i: int|
                0 <= i < final(self).content@.len() ==> {
                    let t = #[trigger] final(self).content@[i];
                    let o = old(self).content@[i];
                    &&& t.blocked == o.blocked
                    &&& t.block_sight == o.block_sight
                    &&& t.cell_type == o.cell_type
                },
            entity_moved(
                old(self).content@,
                final(self).content@,
                id,
                old(self).index_spec(x1 as int, y1 as int),
                old(self).index_spec(x2 as int, y2 as int),
            ),
    {
        let i = self.index_of(x1, y1);
        let j = self.index_of(x2, y2);
        let ghost o = old(self).content@;
        let mut from = self.content.remove(i);
        let moved = from.remove_entity(id);
        self.content.insert(i, from);
        let ghost mid = self.content@;
        assert(mid =~= o.update(i as int, mid[i as int]));
        if let Some(entity) = moved {
            let mut to = self.content.remove(j);
            to.add_entity(entity);
            self.content.insert(j, to);
            assert(self.content@ =~= mid.update(j as int, self.content@[j as int]));
        } else {
            assert(self.content@ =~= o);
        }
        assert forall|k: int| 0 <= k < self.content@.len() implies {
            let t = #[trigger] self.content@[k];
            let o = old(self).content@[k];
            &&& t.blocked == o.blocked
            &&& t.block_sight == o.block_sight
            &&& t.cell_type == o.cell_type
        } by {}
    }

    /// The tile at `(x, y)`.
    pub fn get(&self, x: i32, y: i32) -> (t: &Tile)
        requires
            self.wf(),
            self.in_bounds(x as int, y as int),
        ensures
            *t == self.tile(Position { x, y }),
    {
        let i = self.index_of(x, y);
        &self.content[i]
    }
}

} // verus!
