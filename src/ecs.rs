use vstd::prelude::*;

verus! {

/// A map from cells to what blocks them.
pub struct Index<T> {
    blocked: Vec<(Position, T)>,
}

impl<T> View for Index<T> {
    type V = Map<Position, T>;

    closed spec fn view(&self) -> Map<Position, T> {
        Map::new(
            |p: Position| exists|i: int| 0 <= i < self.blocked@.len() && self.blocked@[i].0 == p,
            |p: Position|
                self.blocked@[choose|i: int| 0 <= i < self.blocked@.len() && self.blocked@[i].0 == p].1,
        )
    }
}

impl<T> Index<T> {
    /// Each cell is held at most once.
    pub closed spec fn wf(&self) -> bool {
        forall|i: int, j: int|
            0 <= i < j < self.blocked@.len() ==> #[trigger] self.blocked@[i].0
                != #[trigger] self.blocked@[j].0
    }

    proof fn lemma_entry(&self, i: int)
        requires
            self.wf(),
            0 <= i < self.blocked@.len(),
        ensures
            self@.contains_key(self.blocked@[i].0),
            self@[self.blocked@[i].0] == self.blocked@[i].1,
    {
        let p = self.blocked@[i].0;
        assert(0 <= i < self.blocked@.len() && self.blocked@[i].0 == p);
        let k = choose|k: int| 0 <= k < self.blocked@.len() && self.blocked@[k].0 == p;
        if k != i {
            if k < i {
                assert(self.blocked@[k].0 != self.blocked@[i].0);
            } else {
                assert(self.blocked@[i].0 != self.blocked@[k].0);
            }
        }
    }

    proof fn lemma_view_of(&self, m: Map<Position, T>)
        requires
            self.wf(),
            forall|i: int|
                0 <= i < self.blocked@.len() ==> m.contains_key(#[trigger] self.blocked@[i].0)
                    && m[self.blocked@[i].0] == self.blocked@[i].1,
            forall|p: Position|
                m.contains_key(p) ==> exists|i: int|
                    0 <= i < self.blocked@.len() && #[trigger] self.blocked@[i].0 == p,
        ensures
            self@ == m,
    {
        assert forall|p: Position| #[trigger] self@.contains_key(p) implies m.contains_key(p)
            && self@[p] == m[p] by {
            let i = choose|i: int| 0 <= i < self.blocked@.len() && self.blocked@[i].0 == p;
            self.lemma_entry(i);
        }
        assert(self@ =~= m);
    }

    fn find(&self, pos: &Position) -> (r: Option<usize>)
        requires
            self.wf(),
        ensures
            r is Some ==> r->0 < self.blocked@.len() && self.blocked@[r->0 as int].0 == *pos,
            r is None ==> !self@.contains_key(*pos),
    {
        let mut i: usize = 0;
        while i < self.blocked.len()
            invariant
                0 <= i <= self.blocked@.len(),
                forall|j: int| 0 <= j < i ==> #[trigger] self.blocked@[j].0 != *pos,
            decreases self.blocked.len() - i,
        {
            if self.blocked[i].0 == *pos {
                return Some(i);
            }
            i = i + 1;
        }
        None
    }

    /// An index that blocks nothing.
    pub fn new() -> (r: Index<T>)
        ensures
            r.wf(),
            r@ == Map::<Position, T>::empty(),
    {
        let r = Index { blocked: Vec::new() };
        assert(r@ =~= Map::<Position, T>::empty());
        r
    }

    /// Records `e` at `pos`, replacing what was there.
    pub fn add(&mut self, pos: Position, e: T)
        requires
            old(self).wf(),
        ensures
            final(self).wf(),
            final(self)@ == old(self)@.insert(pos, e),
    {
        let ghost m = self@.insert(pos, e);
        match self.find(&pos) {
            Some(i) => {
                let ghost before = self.blocked@;
                proof {
                    assert forall|j: int| 0 <= j < before.len() implies #[trigger] m.contains_key(
                        before[j].0,
                    ) && (j != i ==> m[before[j].0] == before[j].1) by {
                        self.lemma_entry(j);
                        if j != i {
                            if j < i {
                                assert(before[j].0 != before[i as int].0);
                            } else {
                                assert(before[i as int].0 != before[j].0);
                            }
                        }
                    }
                    assert forall|p: Position| m.contains_key(p) implies exists|j: int|
                        0 <= j < before.len() && #[trigger] before[j].0 == p by {
                        if p != pos {
                            assert(self@.contains_key(p));
                        }
                    }
                }
                self.blocked.set(i, (pos, e));
                proof {
                    assert forall|p: Position| m.contains_key(p) implies exists|j: int|
                        0 <= j < self.blocked@.len() && #[trigger] self.blocked@[j].0 == p by {
                        let j = choose|j: int| 0 <= j < before.len() && #[trigger] before[j].0 == p;
                        assert(self.blocked@[j].0 == p);
                    }
                    self.lemma_view_of(m);
                }
            },
            None => {
                let ghost before = self.blocked@;
                proof {
                    assert forall|j: int| 0 <= j < before.len() implies #[trigger] m.contains_key(
                        before[j].0,
                    ) && m[before[j].0] == before[j].1 by {
                        self.lemma_entry(j);
                    }
                }
                self.blocked.push((pos, e));
                proof {
                    assert forall|p: Position| m.contains_key(p) implies exists|j: int|
                        0 <= j < self.blocked@.len() && #[trigger] self.blocked@[j].0 == p by {
                        if p == pos {
                            assert(self.blocked@[before.len() as int].0 == p);
                        } else {
                            assert(old(self)@.contains_key(p));
                            let j = choose|j: int|
                                0 <= j < before.len() && #[trigger] before[j].0 == p;
                            assert(self.blocked@[j].0 == p);
                        }
                    }
                    self.lemma_view_of(m);
                }
            },
        }
    }

    /// Takes out what blocks `pos`, if anything.
    pub fn remove(&mut self, pos: &Position) -> (r: Option<T>)
        requires
            old(self).wf(),
        ensures
            final(self).wf(),
            final(self)@ == old(self)@.remove(*pos),
            old(self)@.contains_key(*pos) ==> r == Some(old(self)@[*pos]),
            !old(self)@.contains_key(*pos) ==> r is None,
    {
        match self.find(pos) {
            Some(i) => {
                let ghost before = self.blocked@;
                let ghost m = self@.remove(*pos);
                proof {
                    self.lemma_entry(i as int);
                }
                let (_, e) = self.blocked.remove(i);
                proof {
                    assert forall|j: int| 0 <= j < self.blocked@.len() implies #[trigger] m.contains_key(
                        self.blocked@[j].0,
                    ) && m[self.blocked@[j].0] == self.blocked@[j].1 by {
                        let k = if j < i { j } else { j + 1 };
                        assert(self.blocked@[j] == before[k]);
                        old(self).lemma_entry(k);
                        if k < i {
                            assert(before[k].0 != before[i as int].0);
                        } else {
                            assert(before[i as int].0 != before[k].0);
                        }
                    }
                    assert forall|p: Position| m.contains_key(p) implies exists|j: int|
                        0 <= j < self.blocked@.len() && #[trigger] self.blocked@[j].0 == p by {
                        assert(old(self)@.contains_key(p));
                        let k = choose|k: int| 0 <= k < before.len() && #[trigger] before[k].0 == p;
                        if k < i {
                            assert(self.blocked@[k].0 == p);
                        } else {
                            assert(self.blocked@[k - 1].0 == p);
                        }
                    }
                    self.lemma_view_of(m);
                }
                Some(e)
            },
            None => {
                proof {
                    assert(old(self)@.remove(*pos) =~= old(self)@);
                }
                None
            },
        }
    }

    /// What blocks `pos`, if anything.
    pub fn get(&self, pos: &Position) -> (r: Option<&T>)
        requires
            self.wf(),
        ensures
            self@.contains_key(*pos) ==> r == Some(&self@[*pos]),
            !self@.contains_key(*pos) ==> r is None,
    {
        match self.find(pos) {
            Some(i) => {
                proof {
                    self.lemma_entry(i as int);
                }
                Some(&self.blocked[i].1)
            },
            None => None,
        }
    }

    /// Forgets every entry.
    pub fn clear(&mut self)
        ensures
            final(self).wf(),
            final(self)@ == Map::<Position, T>::empty(),
    {
        self.blocked.clear();
        assert(self@ =~= Map::<Position, T>::empty());
    }

    /// Whether anything blocks `pos`.
    pub fn is_blocked(&self, pos: &Position) -> (b: bool)
        requires
            self.wf(),
        ensures
            b == self@.contains_key(*pos),
    {
        match self.find(pos) {
            Some(i) => {
                proof {
                    self.lemma_entry(i as int);
                }
                true
            },
            None => false,
        }
    }

    /// Moves what blocks `from`, if anything, to `to`.
    pub fn move_to(&mut self, from: &Position, to: Position)
        requires
            old(self).wf(),
        ensures
            final(self).wf(),
            old(self)@.contains_key(*from) ==> final(self)@ == old(self)@.remove(*from).insert(
                to,
                old(self)@[*from],
            ),
            !old(self)@.contains_key(*from) ==> final(self)@ == old(self)@,
    {
        if let Some(old) = self.remove(from) {
            self.add(to, old);
        }
    }
}

/// A rectangle of cells: left and top edges, width and height.
#[derive(PartialEq, Eq, Structural, Clone, Copy, Debug, Default)]
pub struct Rect {
    pub x: i32,
    pub y: i32,
    pub width: i32,
    pub height: i32,
}

/// The larger of two integers.
pub open spec fn max_int(a: int, b: int) -> int {
    if a < b {
        b
    } else {
        a
    }
}

/// The smaller of two integers.
pub open spec fn min_int(a: int, b: int) -> int {
    if a < b {
        a
    } else {
        b
    }
}

/// Half of `n`, rounded toward zero as integer division does.
pub open spec fn half(n: int) -> int {
    if n >= 0 {
        n / 2
    } else {
        -((-n) / 2)
    }
}

/// `v` fits in an `i32`.
pub open spec fn fits_i32(v: int) -> bool {
    i32::MIN <= v <= i32::MAX
}

impl Rect {
    pub fn new(left: i32, top: i32, width: i32, height: i32) -> (r: Rect)
        ensures
            r == (Rect { x: left, y: top, width, height }),
    {
        Rect { x: left, y: top, width: width, height: height }
    }

    pub fn new_sized(width: i32, height: i32) -> (r: Rect)
        ensures
            r == (Rect { x: 0, y: 0, width, height }),
    {
        Self::new(0, 0, width, height)
    }

    pub fn left(&self) -> (v: i32)
        ensures
            v == self.x,
    {
        self.x
    }

    pub fn right(&self) -> (v: i32)
        requires
            fits_i32(self.x + self.width),
        ensures
            v == self.x + self.width,
    {
        self.x + self.width
    }

    pub fn top(&self) -> (v: i32)
        ensures
            v == self.y,
    {
        self.y
    }

    pub fn bottom(&self) -> (v: i32)
        requires
            fits_i32(self.y + self.height),
        ensures
            v == self.y + self.height,
    {
        self.y + self.height
    }

    pub fn area(&self) -> (v: i32)
        requires
            fits_i32(self.width * self.height),
        ensures
            v == self.width * self.height,
    {
        self.width * self.height
    }

    pub fn top_left(&self) -> (p: Position)
        ensures
            p == (Position { x: self.x, y: self.y }),
    {
        Position::new(self.x, self.y)
    }

    pub fn bottom_right(&self) -> (p: Position)
        requires
            fits_i32(self.x + self.width),
            fits_i32(self.y + self.height),
        ensures
            p == (Position { x: (self.x + self.width) as i32, y: (self.y + self.height) as i32 }),
    {
        Position::new(self.x + self.width, self.y + self.height)
    }

    /// The rectangle spanned from the smaller to the larger of the two
    /// corners' coordinates.
    pub fn union(&self, other: &Rect) -> (r: Rect)
        requires
            fits_i32(max_int(self.x as int, other.x as int) - min_int(self.x as int, other.x as int)),
            fits_i32(max_int(self.y as int, other.y as int) - min_int(self.y as int, other.y as int)),
        ensures
            r.x == min_int(self.x as int, other.x as int),
            r.y == min_int(self.y as int, other.y as int),
            r.width == max_int(self.x as int, other.x as int) - min_int(self.x as int, other.x as int),
            r.height == max_int(self.y as int, other.y as int) - min_int(
                self.y as int,
                other.y as int,
            ),
    {
        let left = if self.x < other.x { self.x } else { other.x };
        let top = if self.y < other.y { self.y } else { other.y };
        let right = if self.x < other.x { other.x } else { self.x };
        let bottom = if self.y < other.y { other.y } else { self.y };
        Rect { x: left, y: top, width: right - left, height: bottom - top }
    }

    /// The cell halfway across and halfway down, halves rounded toward zero.
    pub fn center(&self) -> (p: Position)
        requires
            fits_i32(self.x + half(self.width as int)),
            fits_i32(self.y + half(self.height as int)),
        ensures
            p.x == self.x + half(self.width as int),
            p.y == self.y + half(self.height as int),
    {
        Position::new(self.x + self.width / 2, self.y + self.height / 2)
    }

    /// The rectangle shrunk by a margin on every side; a margin is capped at
    /// half the size it shrinks.
    pub fn inner(&self, horizontal_margin: i32, vertical_margin: i32) -> (r: Rect)
        requires
            fits_i32(self.x + self.width),
            fits_i32(self.y + self.height),
            ({
                let h = min_int(horizontal_margin as int, half(self.width as int));
                let v = min_int(vertical_margin as int, half(self.height as int));
                &&& fits_i32(self.x + h)
                &&& fits_i32(self.x + self.width - h)
                &&& fits_i32(self.width - 2 * h)
                &&& fits_i32(self.y + v)
                &&& fits_i32(self.y + self.height - v)
                &&& fits_i32(self.height - 2 * v)
            }),
        ensures
            ({
                let h = min_int(horizontal_margin as int, half(self.width as int));
                let v = min_int(vertical_margin as int, half(self.height as int));
                &&& r.x == self.x + h
                &&& r.y == self.y + v
                &&& r.width == self.width - 2 * h
                &&& r.height == self.height - 2 * v
            }),
    {
        let horizontal_margin = if horizontal_margin < self.width / 2 {
            horizontal_margin
        } else {
            self.width / 2
        };
        let vertical_margin = if vertical_margin < self.height / 2 {
            vertical_margin
        } else {
            self.height / 2
        };
        let left = self.x + horizontal_margin;
        let right = self.right() - horizontal_margin;
        let top = self.y + vertical_margin;
        let bottom = self.bottom() - vertical_margin;
        Rect { x: left, y: top, width: right - left, height: bottom - top }
    }
}

impl Rect {
    /// The overlap of two rectangles; its width or height is zero or less
    /// where they do not overlap.
    pub fn intersection(&self, other: &Rect) -> (r: Rect)
        requires
            fits_i32(self.x + self.width),
            fits_i32(self.y + self.height),
            fits_i32(other.x + other.width),
            fits_i32(other.y + other.height),
            fits_i32(min_int(self.x + self.width, other.x + other.width) - max_int(self.x as int, other.x as int)),
            fits_i32(min_int(self.y + self.height, other.y + other.height) - max_int(self.y as int, other.y as int)),
        ensures
            r.x == max_int(self.x as int, other.x as int),
            r.y == max_int(self.y as int, other.y as int),
            r.width == min_int(self.x + self.width, other.x + other.width) - r.x,
            r.height == min_int(self.y + self.height, other.y + other.height) - r.y,
    {
        let left = if self.x < other.x { other.x } else { self.x };
        let top = if self.y < other.y { other.y } else { self.y };
        let right = if self.right() < other.right() { self.right() } else { other.right() };
        let bottom = if self.bottom() < other.bottom() { self.bottom() } else { other.bottom() };
        Rect { x: left, y: top, width: right - left, height: bottom - top }
    }

    /// Whether the two rectangles share at least one cell.
    pub fn intersects(&self, other: &Rect) -> (b: bool)
        requires
            fits_i32(self.x + self.width),
            fits_i32(self.y + self.height),
            fits_i32(other.x + other.width),
            fits_i32(other.y + other.height),
        ensures
            b == (other.x < self.x + self.width && other.x + other.width > self.x && other.y
                < self.y + self.height && other.y + other.height > self.y),
    {
        other.left() < self.right() && other.right() > self.left() && other.top() < self.bottom()
            && other.bottom() > self.top()
    }
}

/// A cell of the map.
#[derive(PartialEq, Eq, Structural, Clone, Copy, Debug, Default, PartialOrd, Ord, Hash)]
pub struct Position {
    pub x: i32,
    pub y: i32,
}

impl Position {
    pub fn new(x: i32, y: i32) -> (p: Position)
        ensures
            p == (Position { x, y }),
    {
        Position { x: x, y: y }
    }

    /// The cell `dx` across and `dy` down from this one.
    pub fn delta(&self, dx: i32, dy: i32) -> (p: Position)
        requires
            fits_i32(self.x + dx),
            fits_i32(self.y + dy),
        ensures
            p.x == self.x + dx,
            p.y == self.y + dy,
    {
        Position { x: self.x + dx, y: self.y + dy }
    }

    /// The vector from this cell to `other`.
    pub fn diff(&self, other: &Position) -> (d: Distance)
        requires
            fits_i32(other.x - self.x),
            fits_i32(other.y - self.y),
        ensures
            d.dx == other.x - self.x,
            d.dy == other.y - self.y,
    {
        Distance { dx: other.x - self.x, dy: other.y - self.y }
    }

    /// Manhattan distance between two cells.
    pub open spec fn manhattan(self, other: Position) -> int {
        abs_int(self.x - other.x) + abs_int(self.y - other.y)
    }

    /// Manhattan distance between two cells.
    pub fn distance(&self, other: &Position) -> (d: u32)
        requires
            self.manhattan(*other) <= u32::MAX,
        ensures
            d == self.manhattan(*other),
    {
        let dx: u32 = if self.x < other.x {
            (other.x as i64 - self.x as i64) as u32
        } else {
            (self.x as i64 - other.x as i64) as u32
        };
        let dy: u32 = if self.y < other.y {
            (other.y as i64 - self.y as i64) as u32
        } else {
            (self.y as i64 - other.y as i64) as u32
        };
        dx + dy
    }

    /// The cells one king's move away.
    pub open spec fn is_neighbour(self, other: Position) -> bool {
        &&& abs_int(self.x - other.x) <= 1
        &&& abs_int(self.y - other.y) <= 1
        &&& self != other
    }

    /// The eight surrounding cells, row by row from the top-left.
    pub fn neighbours(&self) -> (v: Vec<Position>)
        requires
            i32::MIN < self.x < i32::MAX,
            i32::MIN < self.y < i32::MAX,
        ensures
            v@.len() == 8,
            forall|i: int| 0 <= i < 8 ==> self.is_neighbour(#[trigger] v@[i]),
            forall|p: Position| self.is_neighbour(p) ==> v@.contains(p),
            v@ == seq![
                Position { x: (self.x - 1) as i32, y: (self.y - 1) as i32 },
                Position { x: self.x, y: (self.y - 1) as i32 },
                Position { x: (self.x + 1) as i32, y: (self.y - 1) as i32 },
                Position { x: (self.x - 1) as i32, y: self.y },
                Position { x: (self.x + 1) as i32, y: self.y },
                Position { x: (self.x - 1) as i32, y: (self.y + 1) as i32 },
                Position { x: self.x, y: (self.y + 1) as i32 },
                Position { x: (self.x + 1) as i32, y: (self.y + 1) as i32 },
            ],
    {
        let v = vec![
            self.delta(-1, -1),
            self.delta(0, -1),
            self.delta(1, -1),
            self.delta(-1, 0),
            self.delta(1, 0),
            self.delta(-1, 1),
            self.delta(0, 1),
            self.delta(1, 1),
        ];
        proof {
            assert forall|p: Position| self.is_neighbour(p) implies v@.contains(p) by {
                let k: int = (p.y - self.y + 1) * 3 + (p.x - self.x + 1);
                let i: int = if k < 4 { k } else { k - 1 };
                assert(v@[i] == p);
            }
        }
        v
    }
}

/// A vector between two cells.
#[derive(PartialEq, Eq, Structural, Clone, Copy, Debug, PartialOrd, Ord)]
pub struct Distance {
    pub dx: i32,
    pub dy: i32,
}

/// The absolute value of `v`.
pub open spec fn abs_int(v: int) -> int {
    if v < 0 {
        -v
    } else {
        v
    }
}

/// The sign of `v`: -1, 0 or 1.
pub open spec fn sign(v: int) -> int {
    if v < 0 {
        -1
    } else if v > 0 {
        1
    } else {
        0
    }
}

/// A component of the unit vector along `(a, b)`, rounded to the nearest
/// integer: its sign where `|a| / sqrt(a^2 + b^2)` is at least one half, that
/// is where `3 a^2 >= b^2`, else zero.
pub open spec fn unit_component(a: int, b: int) -> int {
    if 3 * (a * a) >= b * b {
        sign(a)
    } else {
        0
    }
}

impl Distance {
    /// The single step, among the eight directions and standing still, that
    /// points most nearly along this vector.
    pub fn normalize(&self) -> (d: Distance)
        ensures
            d.dx == unit_component(self.dx as int, self.dy as int),
            d.dy == unit_component(self.dy as int, self.dx as int),
    {
        let x = self.dx as i128;
        let y = self.dy as i128;
        assert(0 <= x * x <= 0x4000_0000_0000_0000 && 0 <= y * y <= 0x4000_0000_0000_0000)
            by (nonlinear_arith)
            requires
                i32::MIN <= x <= i32::MAX,
                i32::MIN <= y <= i32::MAX,
        ;
        let xx = x * x;
        let yy = y * y;
        let dx: i32 = if 3 * xx >= yy {
            if x < 0 { -1 } else if x > 0 { 1 } else { 0 }
        } else {
            0
        };
        let dy: i32 = if 3 * yy >= xx {
            if y < 0 { -1 } else if y > 0 { 1 } else { 0 }
        } else {
            0
        };
        Distance { dx, dy }
    }
}


/// A stable handle naming one entity of the world.
#[derive(PartialEq, Eq, Structural, Clone, Copy, Debug, PartialOrd, Ord, Hash)]
pub struct EntityId(pub u32);


/// Marks the entity that the human player controls.
#[derive(PartialEq, Eq, Structural, Clone, Copy, Debug, Default)]
pub struct PlayerController;

/// Marks an entity whose turns the planner decides.
#[derive(PartialEq, Eq, Structural, Clone, Copy, Debug, Default)]
pub struct AiController;

/// Number of units in one whole, for attributes and scores held as
/// thousandths.
pub const PER_MILLE: i32 = 1000;

/// What the planner knows of an agent. Calmness and thirst are thousandths
/// in `[0, 1000]`.
#[derive(Clone, Debug, Default)]
pub struct Attributes {
    pub name: String,
    pub blocks: bool,
    pub alive: bool,
    pub goodness: i32,
    pub lawfulness: i32,
    pub calmness: i32,
    pub thirst: i32,
    pub max_hp: i32,
    pub hp: i32,
    pub vision_radius: u16,
    pub faction: String,
}

/// A liquid an agent may drink from or carry.
#[derive(PartialEq, Eq, Structural, Clone, Copy, Debug, Default)]
pub struct Liquid {
    pub potable: bool,
}

/// Combat strengths.
#[derive(PartialEq, Eq, Structural, Clone, Copy, Debug)]
pub struct Fighter {
    pub defense: i32,
    pub attack: i32,
}

/// Elapsed wall-clock time between two frames, in microseconds.
#[derive(PartialEq, Eq, Structural, Clone, Copy, Debug, Default)]
pub struct DeltaTime(pub u64);

/// How an entity is drawn.
#[derive(PartialEq, Eq, Structural, Clone, Copy, Debug)]
pub struct Character {
    pub glyph: char,
    pub color: crate::color::Color,
}

/// Whether the player is still in the game.
#[derive(PartialEq, Eq, Structural, Clone, Copy, Debug)]
pub enum PlayerAlive {
    Alive,
    Dead,
}

impl Default for PlayerAlive {
    fn default() -> (r: PlayerAlive)
        ensures
            r == PlayerAlive::Alive,
    {
        PlayerAlive::Alive
    }
}

/// Flags of a running game session.
#[derive(PartialEq, Eq, Structural, Clone, Copy, Debug)]
pub struct Game {
    pub stop: bool,
    pub player_turn_ended: bool,
    pub player_alive: PlayerAlive,
}

impl Game {
    pub fn new() -> (g: Game)
        ensures
            g == (Game { stop: false, player_turn_ended: false, player_alive: PlayerAlive::Alive }),
    {
        Game { stop: false, player_turn_ended: false, player_alive: PlayerAlive::Alive }
    }

    /// The same session with the player's turn marked as over.
    pub fn end_turn(&self) -> (g: Game)
        ensures
            g == (Game { player_turn_ended: true, ..*self }),
    {
        Game { player_turn_ended: true, ..*self }
    }
}

/// What occupies a cell.
#[derive(PartialEq, Eq, Structural, Clone, Copy, Debug)]
pub enum Occupier {
    Empty,
    Wall,
    Entity(EntityId),
}

/// Something that may leave a cell free.
pub trait Blockable {
    spec fn is_empty_spec(&self) -> bool;

    fn is_empty(&self) -> (b: bool)
        ensures
            b == self.is_empty_spec(),
    ;
}

impl Blockable for Occupier {
    open spec fn is_empty_spec(&self) -> bool {
        *self == Occupier::Empty
    }

    fn is_empty(&self) -> (b: bool) {
        match self {
            Occupier::Empty => true,
            _ => false,
        }
    }
}


impl Attributes {
    /// A copy of these attributes.
    pub fn copy(&self) -> (a: Attributes)
        ensures
            a == *self,
    {
        Attributes {
            name: self.name.clone(),
            blocks: self.blocks,
            alive: self.alive,
            goodness: self.goodness,
            lawfulness: self.lawfulness,
            calmness: self.calmness,
            thirst: self.thirst,
            max_hp: self.max_hp,
            hp: self.hp,
            vision_radius: self.vision_radius,
            faction: self.faction.clone(),
        }
    }
}

} // verus!
