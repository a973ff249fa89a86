use vstd::prelude::*;
use crate::ecs::{EntityId, Occupier, Position};
use crate::events::Time;
use crate::level::{Level, TileType};
use crate::ai::{driver_queued, Ai};
use crate::data::{Data, InputMode};
use crate::ecs::Blockable;
use crate::world::World;

verus! {

#[derive(PartialEq, Eq, Structural, Clone, Copy, Debug)]
pub enum PlayerAction {
    Move(i32, i32),
}

#[derive(PartialEq, Eq, Structural, Clone, Copy, Debug)]
pub enum NonPlayerAction {
    Move(i32, i32),
}

/// Who holds or awaits a turn: the human-controlled actor, or another.
#[derive(PartialEq, Eq, Structural, Clone, Copy, Debug)]
pub enum GameActor {
    Player(EntityId),
    NonPlayer(EntityId),
}

impl GameActor {
    pub open spec fn entity_spec(self) -> EntityId {
        match self {
            GameActor::Player(e) => e,
            GameActor::NonPlayer(e) => e,
        }
    }

    pub fn entity(&self) -> (e: EntityId)
        ensures
            e == self.entity_spec(),
    {
        match *self {
            GameActor::Player(entity) => entity,
            GameActor::NonPlayer(entity) => entity,
        }
    }

    pub fn is_player(&self) -> (b: bool)
        ensures
            b == (*self is Player),
    {
        !self.is_ai()
    }

    pub fn is_ai(&self) -> (b: bool)
        ensures
            b == (*self is NonPlayer),
    {
        match self {
            GameActor::Player(_) => false,
            GameActor::NonPlayer(_) => true,
        }
    }
}

/// Something scheduled on the timeline.
#[derive(PartialEq, Eq, Structural, Clone, Copy, Debug)]
pub enum GameEvent {
    Turn(GameActor),
}

/// What an actor does with its turn.
#[derive(PartialEq, Eq, Structural, Clone, Copy, Debug)]
pub enum GameActionType {
    Pass,
    Stop,
    MoveAttack(i32, i32),
    Look(i32, i32),
    Play,
}

/// An action queued by an actor during a turn.
#[derive(PartialEq, Eq, Structural, Clone, Copy, Debug)]
pub struct GameAction {
    pub actor: GameActor,
    pub turn: u32,
    pub action: GameActionType,
}

/// How an executed action bears on the actor's turn.
#[derive(PartialEq, Eq, Structural, Clone, Copy, Debug)]
pub enum TurnStatus {
    /// The turn is over; the actor acts again after the delay.
    EndTurn(Time),
    /// The turn goes on.
    Continue,
    /// The turn is over and the actor is not scheduled again.
    Stop,
}

/// What stands on the cell `p` of the level: a blocking entity first, then a
/// wall; cells outside the level count as wall.
pub open spec fn occupier_at(level: &Level, p: Position) -> Occupier {
    if !level.in_bounds(p.x as int, p.y as int) {
        Occupier::Wall
    } else if crate::level::has_blocker(level.tile(p).entities@) {
        Occupier::Entity(
            level.tile(p).entities@[choose|i: int|
                0 <= i < level.tile(p).entities@.len() && (#[trigger] level.tile(p).entities@[i]).blocked].id,
        )
    } else if level.tile(p).cell_type == TileType::Wall {
        Occupier::Wall
    } else {
        Occupier::Empty
    }
}

/// `new` is the store `old` with entity `e` standing on `target` and every
/// other component as it was.
pub open spec fn moved_in_world(old: World, new: World, e: EntityId, target: Position) -> bool {
    &&& new.entities@.len() == old.entities@.len()
    &&& new.position_of(e) == Some(target)
    &&& forall|o: EntityId| o != e ==> #[trigger] new.position_of(o) == old.position_of(o)
    &&& forall|i: int|
        0 <= i < new.entities@.len() ==> (#[trigger] new.entities@[i]).attributes
            == old.entities@[i].attributes && new.entities@[i].liquid == old.entities@[i].liquid
}

/// Classifies cells for movement.
pub struct Collider<'a> {
    pub level_map: &'a Level,
}

impl<'a> Collider<'a> {
    pub fn new(level_map: &'a Level) -> (c: Collider<'a>)
        ensures
            c.level_map == level_map,
    {
        Collider { level_map: level_map }
    }

    /// What stands on `p`: `Entity` names a blocking entity on it (the
    /// first one), `Wall` a wall or a cell off the level.
    pub fn get(&self, p: &Position) -> (o: Occupier)
        requires
            self.level_map.wf(),
        ensures
            match o {
                Occupier::Entity(id) => self.level_map.in_bounds(p.x as int, p.y as int)
                    && exists|i: int|
                    0 <= i < self.level_map.tile(*p).entities@.len()
                        && (#[trigger] self.level_map.tile(*p).entities@[i]).blocked
                        && self.level_map.tile(*p).entities@[i].id == id,
                _ => o == occupier_at(self.level_map, *p),
            },
            (o is Entity) == (occupier_at(self.level_map, *p) is Entity),
    {
        if !self.level_map.contains(p.x, p.y) {
            return Occupier::Wall;
        }
        let level_cell = self.level_map.get(p.x, p.y);
        match level_cell.blocker() {
            Some(id) => Occupier::Entity(id),
            None => {
                match level_cell.cell_type {
                    TileType::Wall => Occupier::Wall,
                    _ => Occupier::Empty,
                }
            },
        }
    }
}



/// Runs turns: hands them out from the timeline and carries out the actions
/// queued during them.
pub struct GameSystem {}

/// One tick.
pub open spec fn one_tick() -> Time {
    Time { ticks: 1, micro_ticks: 0 }
}

impl GameSystem {
    pub fn new() -> (s: GameSystem) {
        GameSystem {}
    }

    /// Moves `actor` by `(x, y)` if the target cell is empty, which ends its
    /// turn; bumping into an entity also ends the turn, without moving;
    /// bumping into a wall (or off the map) costs nothing. An actor without a
    /// position or attributes loses its turn for good. When the player moves,
    /// what they see is recomputed.
    pub fn move_or_attack(&mut self, actor: GameActor, x: i32, y: i32, app: &mut Data, world: &mut World) -> (s:
        TurnStatus)
        requires
            old(app).wf(),
        ensures
            final(app).wf(),
            final(app).level.area == old(app).level.area,
            final(app).turn == old(app).turn,
            final(app).time == old(app).time,
            final(app).event_queue == old(app).event_queue,
            final(app).action_queue == old(app).action_queue,
            final(app).player_turns == old(app).player_turns,
            final(app).stop == old(app).stop,
            final(world).entities@.len() == old(world).entities@.len(),
            ({
                let e = actor.entity_spec();
                match (old(world).position_of(e), e.0 < old(world).entities@.len()
                    && old(world).entities@[e.0 as int].attributes is Some) {
                    (Some(p), true) => {
                        let target = Position { x: (p.x + x) as i32, y: (p.y + y) as i32 };
                        if !(i32::MIN <= p.x + x <= i32::MAX && i32::MIN <= p.y + y <= i32::MAX) {
                            s == TurnStatus::Continue && *final(app) == *old(app) && *final(world)
                                == *old(world)
                        } else {
                            match occupier_at(&old(app).level, target) {
                                Occupier::Empty => {
                                    &&& s == TurnStatus::EndTurn(one_tick())
                                    &&& moved_in_world(*old(world), *final(world), e, target)
                                    &&& *final(app) == (Data {
                                        level: final(app).level,
                                        fov: final(app).fov,
                                        ..*old(app)
                                    })
                                    &&& if old(app).level.in_bounds(p.x as int, p.y as int) {
                                        crate::level::entity_moved(
                                            old(app).level.content@,
                                            final(app).level.content@,
                                            e,
                                            old(app).level.index_spec(p.x as int, p.y as int),
                                            old(app).level.index_spec(target.x as int, target.y as int),
                                        )
                                    } else {
                                        final(app).level == old(app).level
                                    }
                                    &&& if actor is Player {
                                        final(app).fov.recomputed(
                                            old(app).fov,
                                            target,
                                            old(world).entities@[e.0 as int].attributes->0.vision_radius,
                                        )
                                    } else {
                                        final(app).fov == old(app).fov
                                    }
                                },
                                Occupier::Wall => s == TurnStatus::Continue && *final(app) == *old(app)
                                    && *final(world) == *old(world),
                                Occupier::Entity(_) => s == TurnStatus::EndTurn(one_tick()) && *final(app)
                                    == *old(app) && *final(world) == *old(world),
                            }
                        }
                    },
                    _ => s == TurnStatus::Stop && *final(app) == *old(app) && *final(world) == *old(world),
                }
            }),
    {
        let entity = actor.entity();
        let pos = match world.position(entity) {
            Some(p) => p,
            None => {
                return TurnStatus::Stop;
            },
        };
        let vision_radius = match world.attributes(entity) {
            Some(attrs) => attrs.vision_radius,
            None => {
                return TurnStatus::Stop;
            },
        };
        let nx = pos.x as i64 + x as i64;
        let ny = pos.y as i64 + y as i64;
        if nx < i32::MIN as i64 || nx > i32::MAX as i64 || ny < i32::MIN as i64 || ny > i32::MAX as i64 {
            return TurnStatus::Continue;
        }
        let new_pos = Position { x: nx as i32, y: ny as i32 };
        let occupier = Collider::new(&app.level).get(&new_pos);
        if occupier.is_empty() {
            if app.level.contains(pos.x, pos.y) {
                app.level.move_entity(entity, pos.x, pos.y, new_pos.x, new_pos.y);
            }
            world.set_position(entity, new_pos);
            if actor.is_player() {
                app.fov.compute(&new_pos, vision_radius);
            }
            assert(new_pos == Position { x: (pos.x + x) as i32, y: (pos.y + y) as i32 });
            TurnStatus::EndTurn(Time::new(1, 0))
        } else {
            match occupier {
                Occupier::Wall => TurnStatus::Continue,
                _ => TurnStatus::EndTurn(Time::new(1, 0)),
            }
        }
    }
}

impl GameSystem {
    /// Carries out one queued action and says how it bears on the turn:
    /// passing ends the turn for one tick, stopping ends it for good, moving
    /// is `move_or_attack`, and looking or returning to play cost nothing.
    pub fn execute(&mut self, action: GameAction, app: &mut Data, world: &mut World) -> (s: TurnStatus)
        requires
            old(app).wf(),
        ensures
            final(app).wf(),
            final(app).turn == old(app).turn,
            final(app).event_queue == old(app).event_queue,
            final(app).action_queue == old(app).action_queue,
            final(app).time == old(app).time,
            final(app).player_turns == old(app).player_turns,
            final(app).stop == old(app).stop,
            final(world).entities@.len() == old(world).entities@.len(),
            action.action == GameActionType::Pass ==> s == TurnStatus::EndTurn(one_tick()),
            action.action == GameActionType::Stop ==> s == TurnStatus::Stop,
            action.action is Look || action.action is Play ==> s == TurnStatus::Continue,
            action.action is Pass || action.action is Stop ==> *final(app) == *old(app) && *final(world)
                == *old(world),
            action.action is Play ==> *final(app) == (Data {
                input_mode: InputMode::Play,
                cursor: None,
                ..*old(app)
            }) && *final(world) == *old(world),
            action.action is Look ==> *final(world) == *old(world) && ({
                let base = match old(app).cursor {
                    Some(c) => Some(c),
                    None => old(world).position_of(action.actor.entity_spec()),
                };
                let (dx, dy) = match action.action {
                    GameActionType::Look(dx, dy) => (dx, dy),
                    _ => (0i32, 0i32),
                };
                match base {
                    Some(b) => if i32::MIN <= b.x + dx <= i32::MAX && i32::MIN <= b.y + dy <= i32::MAX {
                        *final(app) == (Data {
                            input_mode: InputMode::Look,
                            cursor: Some(Position { x: (b.x + dx) as i32, y: (b.y + dy) as i32 }),
                            ..*old(app)
                        })
                    } else {
                        *final(app) == *old(app)
                    },
                    None => *final(app) == *old(app),
                }
            }),
    {
        match action.action {
            GameActionType::Pass => TurnStatus::EndTurn(Time::new(1, 0)),
            GameActionType::Stop => TurnStatus::Stop,
            GameActionType::MoveAttack(x, y) => self.move_or_attack(action.actor, x, y, app, world),
            GameActionType::Look(x, y) => {
                let actor_pos = world.position(action.actor.entity());
                let base = match app.cursor {
                    Some(cursor) => Some(cursor),
                    None => actor_pos,
                };
                if let Some(base) = base {
                    let cx = base.x as i64 + x as i64;
                    let cy = base.y as i64 + y as i64;
                    if cx >= i32::MIN as i64 && cx <= i32::MAX as i64 && cy >= i32::MIN as i64 && cy
                        <= i32::MAX as i64 {
                        app.look_mode(Position { x: cx as i32, y: cy as i32 });
                    }
                }
                TurnStatus::Continue
            },
            GameActionType::Play => {
                app.play_mode();
                TurnStatus::Continue
            },
        }
    }

    /// Settles the turn of `actor` after an action: a finished turn leaves
    /// nobody holding the turn and drops the queued actions, and one that
    /// ends with a delay schedules the actor's next turn after it.
    pub fn conclude(app: &mut Data, actor: GameActor, status: TurnStatus)
        requires
            old(app).wf(),
        ensures
            final(app).wf(),
            final(app).time == old(app).time,
            final(app).player_turns == old(app).player_turns,
            match status {
                TurnStatus::Continue => *final(app) == *old(app),
                TurnStatus::Stop => final(app).action_queue@.len() == 0 && *final(app) == (Data {
                    turn: None,
                    action_queue: final(app).action_queue,
                    ..*old(app)
                }),
                TurnStatus::EndTurn(delay) => final(app).turn is None && final(app).action_queue@.len() == 0
                    && final(app).scheduled_at(
                    &Data { turn: None, action_queue: final(app).action_queue, ..*old(app) },
                    Time::saturated(old(app).time.total() + delay.total()),
                    GameEvent::Turn(actor),
                ),
            },
    {
        match status {
            TurnStatus::EndTurn(delay) => {
                app.end_turn(actor);
                app.schedule_turn(delay, actor);
            },
            TurnStatus::Stop => {
                app.end_turn(actor);
            },
            TurnStatus::Continue => {},
        }
    }

    /// With nobody holding the turn, grants it to the actor of the next
    /// event and moves the clock there; with nothing scheduled, halts.
    /// Returns whether a turn was granted.
    pub fn advance(app: &mut Data) -> (r: bool)
        requires
            old(app).wf(),
        ensures
            final(app).wf(),
            advanced(*old(app), *final(app), r),
    {
        match app.next_event() {
            Some((_time, GameEvent::Turn(actor))) => {
                app.new_turn(actor);
                true
            },
            None => {
                app.finish();
                false
            },
        }
    }

    /// One pass of the engine: a non-player actor holding the turn first
    /// queues its actions; the queued actions are then carried out in order
    /// until one ends the turn, which drops the rest; and if nobody holds the
    /// turn then, the timeline moves on. Returns whether it moved on to a new
    /// turn, in which case the engine should run again; it halts when
    /// nothing is left to schedule.
    pub fn step(&mut self, app: &mut Data, ai: &mut Ai, world: &mut World) -> (r: bool)
        requires
            old(app).wf(),
            old(world).entities@.len() <= u32::MAX,
        ensures
            final(app).wf(),
            final(world).entities@.len() == old(world).entities@.len(),
            stepped(*old(app), *final(app), *old(world), r),
    {
        let ghost start = *app;
        match app.actor_turn() {
            Some(GameActor::NonPlayer(entity)) => {
                ai.schedule_ai_actions(app, entity, world);
            },
            _ => {},
        }
        let ghost decided = *app;
        let ghost mut passes: int = 0;
        while app.action_queue.len() > 0
            invariant
                app.wf(),
                world.entities@.len() == old(world).entities@.len(),
                decided_from(start, decided, *old(world)),
                start == *old(app),
                passes >= 0,
                passes == 0 ==> *app == decided,
                decided.action_queue@.len() == 0 ==> passes == 0,
                passes > 0 && decided.action_queue@.len() > 0 && (decided.action_queue@[0].action is Pass
                    || decided.action_queue@[0].action is Stop) ==> ended_by_head(decided, *app),
                app.turn is None || app.turn == decided.turn,
                npc_turn(decided.turn) ==> app.turn is None || (app.action_queue@.len() > 0
                    && app.action_queue@.last().action == GameActionType::Pass),
                app.event_queue.scheduled() >= decided.event_queue.scheduled(),
                app.stop ==> decided.stop || app.event_queue.scheduled() == u32::MAX,
            decreases app.action_queue@.len(),
        {
            if let Some(action) = app.next_action() {
                let status = self.execute(action, app, world);
                GameSystem::conclude(app, action.actor, status);
            }
            proof {
                passes = passes + 1;
                crate::events::lemma_scheduled_bounded(&app.event_queue);
            }
        }
        let ghost drained = *app;
        let r = if app.actor_turn().is_none() {
            GameSystem::advance(app)
        } else {
            false
        };
        proof {
            crate::events::lemma_scheduled_bounded(&app.event_queue);
            assert(app.action_queue@.len() == 0);
            assert(r ==> app.turn is Some);
            assert(!r ==> app.turn is Some || app.stop);
            assert(!r && !app.stop ==> player_turn(app.turn));
            assert(app.event_queue.scheduled() >= start.event_queue.scheduled());
            assert(r && app.stop ==> start.stop || app.event_queue.scheduled() == u32::MAX);
            assert(app.stop ==> start.stop || app.event_queue.scheduled() == u32::MAX || (app.turn is None
                && app.event_queue.pending().len() == 0));
            if decided.action_queue@.len() == 0 {
                assert(drained == decided);
            } else if decided.action_queue@[0].action is Pass || decided.action_queue@[0].action is Stop {
                assert(ended_by_head(decided, drained));
            }
        }
        r
    }

    /// Runs the engine until it waits for the player or halts, for at most
    /// `max_steps` passes; returns whether it is still able to go on.
    pub fn run(&mut self, app: &mut Data, ai: &mut Ai, world: &mut World, max_steps: u64) -> (r: bool)
        requires
            old(app).wf(),
            old(world).entities@.len() <= u32::MAX,
        ensures
            final(app).wf(),
            final(app).action_queue@.len() == 0 || max_steps == 0,
            !r ==> final(app).turn is Some || final(app).stop,
            !r && !final(app).stop ==> player_turn(final(app).turn),
            r ==> max_steps == 0 || final(app).turn is Some,
            final(app).stop ==> old(app).stop || final(app).event_queue.scheduled() == u32::MAX || (
            final(app).turn is None && final(app).event_queue.pending().len() == 0),
            max_steps > 0 ==> exists|first: Data, r1: bool|
                #[trigger] stepped(*old(app), first, *old(world), r1) && (!r1 ==> !r && *final(app)
                    == first) && (r1 && max_steps > 1 && player_turn(first.turn)
                    ==> !r && *final(app) == first),
    {
        let mut steps: u64 = 0;
        let mut going = true;
        let ghost mut first = *app;
        let ghost mut r1 = true;
        while going && steps < max_steps
            invariant
                app.wf(),
                world.entities@.len() <= u32::MAX,
                steps <= max_steps,
                steps == 0 ==> going && *app == *old(app) && *world == *old(world),
                going && steps > 0 && app.stop ==> old(app).stop || app.event_queue.scheduled() == u32::MAX,
                steps > 0 ==> app.action_queue@.len() == 0,
                !going ==> app.turn is Some || app.stop,
                !going && !app.stop ==> player_turn(app.turn),
                going && steps > 0 ==> app.turn is Some,
                app.stop ==> old(app).stop || app.event_queue.scheduled() == u32::MAX || (app.turn is None
                    && app.event_queue.pending().len() == 0),
                steps > 0 ==> stepped(*old(app), first, *old(world), r1),
                steps > 0 && !r1 ==> !going && *app == first,
                steps > 1 && r1 && player_turn(first.turn) ==> !going && *app == first,
                steps == 1 ==> *app == first && going == r1,
            decreases max_steps - steps,
        {
            let ghost before = *app;
            going = self.step(app, ai, world);
            proof {
                crate::events::lemma_scheduled_bounded(&app.event_queue);
                crate::events::lemma_scheduled_bounded(&before.event_queue);
                if steps == 0 {
                    first = *app;
                    r1 = going;
                }
            }
            steps = steps + 1;
        }
        going
    }
}

/// `new` is `old` after the timeline moved on: with nothing scheduled the
/// engine halts, and otherwise the first event's actor gets the turn (the
/// player's count of turns going up by one for the player, up to
/// `u32::MAX`) and the clock moves to its time.
pub open spec fn advanced(old: Data, new: Data, r: bool) -> bool {
    if old.event_queue.pending().len() == 0 {
        !r && new == (Data { stop: true, ..old })
    } else {
        let first = old.event_queue.pending()[0];
        let actor = match first.item {
            GameEvent::Turn(a) => a,
        };
        &&& r
        &&& new.time == first.time
        &&& new.turn == Some(actor)
        &&& new.event_queue.pending() == old.event_queue.pending().drop_first()
        &&& new.event_queue.scheduled() == old.event_queue.scheduled()
        &&& new.player_turns == if actor is Player && old.player_turns < u32::MAX {
            (old.player_turns + 1) as u32
        } else {
            old.player_turns
        }
        &&& new == (Data {
            time: new.time,
            turn: new.turn,
            event_queue: new.event_queue,
            player_turns: new.player_turns,
            ..old
        })
    }
}

/// `new` is `old` once the action at the head of its queue, a pass or a
/// stop, has ended the turn: the queue is dropped, nobody holds the turn,
/// and after a pass the actor's next turn is scheduled one tick on.
pub open spec fn ended_by_head(old: Data, new: Data) -> bool {
    let head = old.action_queue@[0];
    &&& new.turn is None
    &&& new.action_queue@.len() == 0
    &&& if head.action is Pass {
        new.scheduled_at(
            &Data { turn: None, action_queue: new.action_queue, ..old },
            Time::saturated(old.time.total() + one_tick().total()),
            GameEvent::Turn(head.actor),
        )
    } else {
        new == (Data { turn: None, action_queue: new.action_queue, ..old })
    }
}

/// What one pass of the engine does to `old` (the store as it was), ending
/// in `new` and returning `r`.
pub open spec fn stepped(old: Data, new: Data, world: World, r: bool) -> bool {
    &&& new.action_queue@.len() == 0
    &&& r ==> new.turn is Some
    &&& !r ==> new.turn is Some || new.stop
    &&& !r && !new.stop ==> player_turn(new.turn)
    &&& new.event_queue.scheduled() >= old.event_queue.scheduled()
    &&& r && new.stop ==> old.stop || new.event_queue.scheduled() == u32::MAX
    &&& new.stop ==> old.stop || new.event_queue.scheduled() == u32::MAX || (new.turn is None
        && new.event_queue.pending().len() == 0)
    &&& exists|decided: Data|
        #[trigger] decided_from(old, decided, world) && if decided.action_queue@.len() == 0 {
            if decided.turn is None {
                advanced(decided, new, r)
            } else {
                !r && new == decided
            }
        } else if decided.action_queue@[0].action is Pass || decided.action_queue@[0].action is Stop {
            exists|ended: Data| #[trigger] ended_by_head(decided, ended) && advanced(ended, new, r)
        } else {
            true
        }
}

/// Another actor than the player holds the turn.
pub open spec fn npc_turn(turn: Option<GameActor>) -> bool {
    match turn {
        Some(GameActor::NonPlayer(_)) => true,
        _ => false,
    }
}

/// The player holds the turn.
pub open spec fn player_turn(turn: Option<GameActor>) -> bool {
    match turn {
        Some(GameActor::Player(_)) => true,
        _ => false,
    }
}

/// `decided` is `old` after the actor holding the turn, if it is not the
/// player, queued its actions.
pub open spec fn decided_from(old: Data, decided: Data, world: World) -> bool {
    match old.turn {
        Some(GameActor::NonPlayer(e)) => driver_queued(old, decided, world, e),
        _ => decided == old,
    }
}

} // verus!
