use vstd::prelude::*;
use crate::ecs::{Position, Rect};
use crate::level::Level;

verus! {

/// The cells that recursive shadow-casting lights from `(x, y)` within
/// `radius` (the whole map where `radius` is zero) over a row-major grid of
/// transparency flags, walls at the edge of sight included.
pub uninterp spec fn shadow_cast_cells(
    transparent: Seq<bool>,
    width: nat,
    height: nat,
    x: nat,
    y: nat,
    radius: nat,
) -> Seq<bool>;

/// Relies on doryen-fov's `FovRecursiveShadowCasting::compute_fov` on a
/// `MapData` of the given size and transparency, with walls lit: it fills a
/// grid of the same size with the cells in view, the origin always among
/// them. It indexes the origin, so the origin must lie inside the grid, and
/// it squares offsets in `i32`, so no side may exceed 32767 cells.
#[verifier::external_body]
fn shadow_cast(
    transparent: &Vec<bool>,
    width: usize,
    height: usize,
    x: usize,
    y: usize,
    radius: u16,
) -> (r: Vec<bool>)
    requires
        transparent@.len() == width * height,
        width <= 32767,
        height <= 32767,
        x < width,
        y < height,
    ensures
        r@ == shadow_cast_cells(transparent@, width as nat, height as nat, x as nat, y as nat, radius as nat),
        r@.len() == transparent@.len(),
        r@[x + y * width] == true,
{
    let mut map = doryen_fov::MapData::new(width, height);
    map.transparent = transparent.clone();
    let mut algorithm = doryen_fov::FovRecursiveShadowCasting::new();
    doryen_fov::FovAlgorithm::compute_fov(&mut algorithm, &mut map, x, y, radius as usize, true);
    map.fov
}

/// How a cell of the map shows.
#[derive(PartialEq, Eq, Structural, Clone, Copy, Debug)]
pub enum Visibility {
    /// In view now.
    Visible,
    /// Seen before, not in view now.
    Explored,
}

/// Which cells of the level let sight through, row by row.
pub open spec fn transparency(level: &Level) -> Seq<bool> {
    level.content@.map_values(|t: crate::level::Tile| !t.block_sight)
}

/// `view` is what is seen from `p` within `radius` on `level` when nothing
/// was seen before: nothing at all when `p` lies off the level.
pub open spec fn own_view(view: Fov, level: &Level, p: Position, radius: u16) -> bool {
    &&& view.wf()
    &&& view.area() == level.area
    &&& view.transparent_cells() == transparency(level)
    &&& view.visible_cells().len() == level.content@.len()
    &&& if level.in_bounds(p.x as int, p.y as int) {
        view.visible_cells() == shadow_cast_cells(
            transparency(level),
            level.area.width as nat,
            level.area.height as nat,
            (p.x - level.area.x) as nat,
            (p.y - level.area.y) as nat,
            radius as nat,
        )
    } else {
        forall|i: int| 0 <= i < view.visible_cells().len() ==> !#[trigger] view.visible_cells()[i]
    }
}

/// What the player sees now, and what they have ever seen, over the map's
/// area.
pub struct Fov {
    area: Rect,
    transparent: Vec<bool>,
    visible: Vec<bool>,
    explored: Vec<bool>,
}

impl Fov {
    pub closed spec fn wf(&self) -> bool {
        &&& 0 <= self.area.width <= crate::level::MAX_SIDE
        &&& 0 <= self.area.height <= crate::level::MAX_SIDE
        &&& self.area.x + self.area.width <= i32::MAX
        &&& self.area.y + self.area.height <= i32::MAX
        &&& self.transparent@.len() == self.area.width * self.area.height
        &&& self.visible@.len() == self.transparent@.len()
        &&& self.explored@.len() == self.transparent@.len()
    }

    /// The area the view covers.
    pub closed spec fn area(&self) -> Rect {
        self.area
    }

    /// Where the flags of `p` are stored, if `p` lies in the area.
    pub open spec fn cell(&self, p: Position) -> Option<int> {
        let a = self.area();
        if a.x <= p.x < a.x + a.width && a.y <= p.y < a.y + a.height {
            Some((p.y - a.y) * a.width + (p.x - a.x))
        } else {
            None
        }
    }

    /// Which cells are in view, row by row.
    pub closed spec fn visible_cells(&self) -> Seq<bool> {
        self.visible@
    }

    /// Which cells have ever been in view, row by row.
    pub closed spec fn explored_cells(&self) -> Seq<bool> {
        self.explored@
    }

    /// Which cells let sight through, row by row.
    pub closed spec fn transparent_cells(&self) -> Seq<bool> {
        self.transparent@
    }

    /// This view is `old` recomputed from `p` within `radius`: same area and
    /// transparency, the cells that shadow-casting lights from `p` in view,
    /// and those added to the explored ones.
    pub open spec fn recomputed(&self, old: Fov, p: Position, radius: u16) -> bool {
        &&& self.wf()
        &&& self.area() == old.area()
        &&& self.transparent_cells() == old.transparent_cells()
        &&& self.visible_cells() == shadow_cast_cells(
            old.transparent_cells(),
            old.area().width as nat,
            old.area().height as nat,
            (p.x - old.area().x) as nat,
            (p.y - old.area().y) as nat,
            radius as nat,
        )
        &&& self.visible_cells()[old.cell(p)->0]
        &&& self.visible_cells().len() == old.visible_cells().len()
        &&& self.explored_cells().len() == old.explored_cells().len()
        &&& forall|i: int|
            0 <= i < self.explored_cells().len() ==> #[trigger] self.explored_cells()[i] == (
            old.explored_cells()[i] || self.visible_cells()[i])
    }

    /// A view of the level where nothing is seen yet.
    pub fn new(level: &Level) -> (f: Fov)
        requires
            level.wf(),
        ensures
            f.wf(),
            f.area() == level.area,
            f.transparent_cells().len() == level.content@.len(),
            f.transparent_cells() == transparency(level),
            f.visible_cells().len() == level.content@.len(),
            forall|i: int|
                0 <= i < level.content@.len() ==> f.transparent_cells()[i] == !(
                #[trigger] level.content@[i]).block_sight,
            forall|i: int| 0 <= i < level.content@.len() ==> !#[trigger] f.visible_cells()[i],
            forall|i: int| 0 <= i < level.content@.len() ==> !#[trigger] f.explored_cells()[i],
    {
        let mut transparent: Vec<bool> = Vec::new();
        let mut visible: Vec<bool> = Vec::new();
        let mut explored: Vec<bool> = Vec::new();
        let mut i: usize = 0;
        while i < level.content.len()
            invariant
                0 <= i <= level.content@.len(),
                transparent@.len() == i,
                visible@.len() == i,
                explored@.len() == i,
                forall|j: int| 0 <= j < i ==> transparent@[j] == !(#[trigger] level.content@[j]).block_sight,
                forall|j: int| 0 <= j < i ==> !#[trigger] visible@[j],
                forall|j: int| 0 <= j < i ==> !#[trigger] explored@[j],
            decreases level.content.len() - i,
        {
            transparent.push(!level.content[i].block_sight);
            visible.push(false);
            explored.push(false);
            i = i + 1;
        }
        assert(transparent@ =~= transparency(level));
        Fov { area: level.area, transparent, visible, explored }
    }

    /// Recomputes what is in view from `position` within `radius`, and adds
    /// it to what has been explored.
    pub fn compute(&mut self, position: &Position, radius: u16)
        requires
            old(self).wf(),
            old(self).cell(*position) is Some,
        ensures
            final(self).recomputed(*old(self), *position, radius),
    {
        let width = self.area.width as usize;
        let height = self.area.height as usize;
        let x = (position.x as i64 - self.area.x as i64) as usize;
        let y = (position.y as i64 - self.area.y as i64) as usize;
        assert(y * width + x == x + y * width) by (nonlinear_arith);
        self.visible = shadow_cast(&self.transparent, width, height, x, y, radius);
        let ghost before = self.explored@;
        assert(self.wf());
        let mut i: usize = 0;
        while i < self.explored.len()
            invariant
                0 <= i <= self.explored@.len(),
                self.explored@.len() == before.len(),
                self.visible@.len() == before.len(),
                self.area == old(self).area,
                self.transparent == old(self).transparent,
                self.transparent@.len() == before.len(),
                self.visible@ == shadow_cast_cells(
                    old(self).transparent_cells(),
                    old(self).area().width as nat,
                    old(self).area().height as nat,
                    (position.x - old(self).area().x) as nat,
                    (position.y - old(self).area().y) as nat,
                    radius as nat,
                ),
                self.visible@[x + y * width],
                forall|j: int| 0 <= j < i ==> #[trigger] self.explored@[j] == (before[j] || self.visible@[j]),
                forall|j: int| i <= j < before.len() ==> #[trigger] self.explored@[j] == before[j],
            decreases self.explored.len() - i,
        {
            if self.visible[i] {
                self.explored.set(i, true);
            }
            i = i + 1;
        }
    }

    /// Whether `(x, y)` is in view; cells outside the area never are.
    pub fn is_in_fov(&self, x: i32, y: i32) -> (b: bool)
        requires
            self.wf(),
        ensures
            b == match self.cell(Position { x, y }) {
                Some(i) => self.visible_cells()[i],
                None => false,
            },
    {
        match self.index_of(x, y) {
            Some(i) => self.visible[i],
            None => false,
        }
    }

    /// Whether `(x, y)` has ever been in view; cells outside the area never
    /// have.
    pub fn is_explored(&self, x: i32, y: i32) -> (b: bool)
        requires
            self.wf(),
        ensures
            b == match self.cell(Position { x, y }) {
                Some(i) => self.explored_cells()[i],
                None => false,
            },
    {
        match self.index_of(x, y) {
            Some(i) => self.explored[i],
            None => false,
        }
    }

    /// How the cell `(x, y)` shows: in view, seen before, or not at all.
    pub fn visibility(&self, x: i32, y: i32) -> (v: Option<Visibility>)
        requires
            self.wf(),
        ensures
            v == match self.cell(Position { x, y }) {
                Some(i) => if self.visible_cells()[i] {
                    Some(Visibility::Visible)
                } else if self.explored_cells()[i] {
                    Some(Visibility::Explored)
                } else {
                    None
                },
                None => None,
            },
    {
        if self.is_in_fov(x, y) {
            Some(Visibility::Visible)
        } else if self.is_explored(x, y) {
            Some(Visibility::Explored)
        } else {
            None
        }
    }

    /// Forgets what has been explored.
    pub fn reset_explored(&mut self)
        requires
            old(self).wf(),
        ensures
            final(self).wf(),
            final(self).area() == old(self).area(),
            final(self).transparent_cells() == old(self).transparent_cells(),
            final(self).visible_cells() == old(self).visible_cells(),
            forall|i: int|
                0 <= i < final(self).explored_cells().len() ==> !#[trigger] final(self).explored_cells()[i],
    {
        let mut i: usize = 0;
        while i < self.explored.len()
            invariant
                0 <= i <= self.explored@.len(),
                self.wf(),
                self.area == old(self).area,
                self.transparent == old(self).transparent,
                self.visible == old(self).visible,
                forall|j: int| 0 <= j < i ==> !#[trigger] self.explored@[j],
            decreases self.explored.len() - i,
        {
            self.explored.set(i, false);
            i = i + 1;
        }
    }

    fn index_of(&self, x: i32, y: i32) -> (r: Option<usize>)
        requires
            self.wf(),
        ensures
            self.cell(Position { x, y }) is None ==> r is None,
            self.cell(Position { x, y }) is Some ==> r is Some && r->0 as int == self.cell(
                Position { x, y },
            )->0 && r->0 < self.visible@.len(),
    {
        if x >= self.area.x && x < self.area.x + self.area.width && y >= self.area.y && y
            < self.area.y + self.area.height {
            let w = self.area.width as usize;
            let dx = (x as i64 - self.area.x as i64) as usize;
            let dy = (y as i64 - self.area.y as i64) as usize;
            let n = self.visible.len();
            assert(0 <= dy * w + dx < (self.area.width as int) * (self.area.height as int)) by (nonlinear_arith)
                requires
                    0 <= dx < w,
                    0 <= dy < self.area.height,
                    w == self.area.width,
            ;
            Some(dy * w + dx)
        } else {
            None
        }
    }
}

} // verus!
