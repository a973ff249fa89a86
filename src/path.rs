use vstd::prelude::*;
use crate::ecs::Position;
use crate::level::{has_blocker, Level};

verus! {

/// Both coordinates of `p` have a neighbour on each side within `i32`.
pub open spec fn interior(p: Position) -> bool {
    i32::MIN < p.x < i32::MAX && i32::MIN < p.y < i32::MAX
}

/// A walker heading for `target` may step onto `next`: the cell lies in the
/// map and is not a wall, and no entity blocks it unless it is the target.
pub open spec fn step_allowed(level: &Level, next: Position, target: Position) -> bool {
    &&& level.in_bounds(next.x as int, next.y as int)
    &&& !level.tile(next).blocked
    &&& (next == target || !has_blocker(level.tile(next).entities@))
}

/// One step of a walk toward `target`: to a neighbouring cell that may be
/// stepped on.
pub open spec fn is_step(level: &Level, from: Position, to: Position, target: Position) -> bool {
    interior(from) && from.is_neighbour(to) && step_allowed(level, to, target)
}

/// `path` walks from `src` to `dst` one allowed step at a time.
pub open spec fn is_path(level: &Level, src: Position, dst: Position, path: Seq<Position>) -> bool {
    &&& path.len() >= 1
    &&& path[0] == src
    &&& path.last() == dst
    &&& forall|k: int| 0 <= k < path.len() - 1 ==> is_step(level, #[trigger] path[k], path[k + 1], dst)
}

/// Finds walks across a level.
pub struct PathFinder<'a> {
    pub level: &'a Level,
}

impl<'a> PathFinder<'a> {
    pub fn new(level: &'a Level) -> (p: PathFinder<'a>)
        ensures
            p.level == level,
    {
        PathFinder { level: level }
    }

    /// The cost of stepping onto `dst` on the way to `target`: one where the
    /// step is allowed, `u32::MAX` where it is not.
    pub fn move_cost(&self, dst: &Position, target: &Position) -> (c: u32)
        requires
            self.level.wf(),
        ensures
            c == if step_allowed(self.level, *dst, *target) {
                1
            } else {
                u32::MAX
            },
    {
        if !self.level.contains(dst.x, dst.y) {
            return u32::MAX;
        }
        let tile = self.level.get(dst.x, dst.y);
        if tile.blocked {
            u32::MAX
        } else if *dst == *target {
            1
        } else if tile.blocker().is_some() {
            u32::MAX
        } else {
            1
        }
    }

    /// A walk from `src` to `dst`, both ends included, found by A* under the
    /// Manhattan estimate, with the number of steps it takes; `None` when
    /// `dst` cannot be reached.
    pub fn path(&self, src: &Position, dst: &Position) -> (r: Option<(Vec<Position>, u64)>)
        requires
            self.level.wf(),
        ensures
            r is Some ==> is_path(self.level, *src, *dst, (r->0).0@),
            r is Some ==> (r->0).1 == (r->0).0@.len() - 1,
            r is None ==> forall|p: Seq<Position>| !#[trigger] is_path(self.level, *src, *dst, p),
    {
        match astar_path(self, src, dst) {
            Some(path) => {
                let steps = (path.len() - 1) as u64;
                Some((path, steps))
            },
            None => None,
        }
    }
}

/// The cells one allowed step from `p` on the way to `target`, each at cost
/// one.
pub fn walkable_neighbours(finder: &PathFinder, p: &Position, target: &Position) -> (r: Vec<(Position, u64)>)
    requires
        finder.level.wf(),
    ensures
        forall|k: int|
            0 <= k < r@.len() ==> is_step(finder.level, *p, (#[trigger] r@[k]).0, *target) && r@[k].1
                == 1,
        forall|q: Position| is_step(finder.level, *p, q, *target) ==> exists|k: int|
            0 <= k < r@.len() && #[trigger] r@[k].0 == q,
{
    let mut r: Vec<(Position, u64)> = Vec::new();
    if !(p.x > i32::MIN && p.x < i32::MAX && p.y > i32::MIN && p.y < i32::MAX) {
        return r;
    }
    let candidates = p.neighbours();
    let mut i: usize = 0;
    while i < candidates.len()
        invariant
            0 <= i <= candidates@.len(),
            candidates@.len() == 8,
            finder.level.wf(),
            interior(*p),
            forall|j: int| 0 <= j < 8 ==> p.is_neighbour(#[trigger] candidates@[j]),
            forall|q: Position| p.is_neighbour(q) ==> candidates@.contains(q),
            forall|k: int|
                0 <= k < r@.len() ==> is_step(finder.level, *p, (#[trigger] r@[k]).0, *target) && r@[k].1
                    == 1,
            forall|j: int|
                0 <= j < i && is_step(finder.level, *p, #[trigger] candidates@[j], *target) ==> exists|k: int|
                    0 <= k < r@.len() && r@[k].0 == candidates@[j],
        decreases candidates.len() - i,
    {
        let next = candidates[i];
        let ghost before = r@;
        if finder.move_cost(&next, target) != u32::MAX {
            r.push((next, 1));
            proof {
                assert(r@[r@.len() - 1].0 == next);
                assert forall|j: int|
                    0 <= j < i && is_step(finder.level, *p, #[trigger] candidates@[j], *target) implies exists|k: int|
                    0 <= k < r@.len() && r@[k].0 == candidates@[j] by {
                    let k = choose|k: int| 0 <= k < before.len() && before[k].0 == candidates@[j];
                    assert(r@[k] == before[k]);
                }
            }
        }
        i = i + 1;
    }
    proof {
        assert forall|q: Position| is_step(finder.level, *p, q, *target) implies exists|k: int|
            0 <= k < r@.len() && #[trigger] r@[k].0 == q by {
            let j = choose|j: int| 0 <= j < candidates@.len() && candidates@[j] == q;
            assert(is_step(finder.level, *p, candidates@[j], *target));
        }
    }
    r
}

/// An estimate of the steps left from `p` to `target`: the Manhattan
/// distance.
pub fn estimate(p: &Position, target: &Position) -> (d: u64)
    ensures
        d == p.manhattan(*target),
{
    let dx = if p.x < target.x {
        target.x as i64 - p.x as i64
    } else {
        p.x as i64 - target.x as i64
    };
    let dy = if p.y < target.y {
        target.y as i64 - p.y as i64
    } else {
        p.y as i64 - target.y as i64
    };
    (dx + dy) as u64
}

/// Whether the walk has arrived.
pub fn arrived(p: &Position, target: &Position) -> (b: bool)
    ensures
        b == (*p == *target),
{
    p.x == target.x && p.y == target.y
}

/// Relies on pathfinding's `astar`: the path it returns starts at `src`,
/// follows edges that `successors` lists and ends at a node that `success`
/// accepts; it returns `None` only when no such path exists, having searched
/// every node reachable from `src`, of which there are finitely many here
/// (cells of the map, and `src`). Costs are `u64`: a path's cost plus an
/// estimate (at most twice `u32::MAX`) cannot overflow. The cost it reports
/// is dropped.
#[verifier::external_body]
fn astar_path(finder: &PathFinder, src: &Position, dst: &Position) -> (r: Option<Vec<Position>>)
    requires
        finder.level.wf(),
    ensures
        r is Some ==> is_path(finder.level, *src, *dst, r->0@),
        r is None ==> forall|p: Seq<Position>| !#[trigger] is_path(finder.level, *src, *dst, p),
{
    pathfinding::prelude::astar(
        src,
        |p: &Position| walkable_neighbours(finder, p, dst),
        |p: &Position| estimate(p, dst),
        |p: &Position| arrived(p, dst),
    ).map(|(path, _cost): (Vec<Position>, u64)| path)
}

} // verus!
