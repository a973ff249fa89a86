use vstd::prelude::*;
use crate::ecs::{EntityId, Position, Rect};
use crate::level_gen;
use crate::world::World;
use crate::events::{EventQueue, Time};
use crate::factions::Factions;
use crate::fov::Fov;
use crate::level::Level;
use crate::system::{GameAction, GameActionType, GameActor, GameEvent};

verus! {

/// How player input is read.
#[derive(PartialEq, Eq, Structural, Clone, Copy, Debug)]
pub enum InputMode {
    Edit,
    Play,
    Look,
}

/// The state of the simulation: the map and what is seen of it, whose turn
/// it is, the clock and the two queues.
pub struct Data {
    pub level: Level,
    pub fov: Fov,
    pub player: EntityId,
    pub turn: Option<GameActor>,
    pub player_turns: u32,
    pub time: Time,
    pub event_queue: EventQueue<GameEvent>,
    pub action_queue: Vec<GameAction>,
    pub stop: bool,
    pub cursor: Option<Position>,
    pub input_mode: InputMode,
    pub factions: Factions,
}

impl Data {
    pub open spec fn wf(&self) -> bool {
        &&& self.level.wf()
        &&& self.fov.wf()
        &&& self.fov.area() == self.level.area
        &&& self.event_queue.wf()
    }

    /// A session on `level`: the player holds the first turn and every other
    /// actor acts one tick later, in the order given.
    pub fn new(level: Level, player: EntityId, npcs: &Vec<EntityId>) -> (d: Data)
        requires
            level.wf(),
            npcs@.len() < u32::MAX,
        ensures
            d.wf(),
            d.level == level,
            d.player == player,
            d.turn == Some(GameActor::Player(player)),
            d.player_turns == 1,
            d.time == Time::from_total(0),
            d.action_queue@.len() == 0,
            !d.stop,
            d.event_queue.pending().len() == npcs@.len(),
            forall|i: int|
                0 <= i < npcs@.len() ==> (#[trigger] d.event_queue.pending()[i]).item == GameEvent::Turn(
                    GameActor::NonPlayer(npcs@[i]),
                ) && d.event_queue.pending()[i].time == Time::from_total(1_000_000),
    {
        let fov = Fov::new(&level);
        let mut data = Data {
            level,
            fov,
            player,
            turn: None,
            player_turns: 0,
            time: Time::new(0, 0),
            event_queue: EventQueue::new(),
            action_queue: Vec::new(),
            stop: false,
            cursor: None,
            input_mode: InputMode::Play,
            factions: Factions::new(),
        };
        data.new_turn(GameActor::Player(player));
        let mut i: usize = 0;
        while i < npcs.len()
            invariant
                0 <= i <= npcs@.len(),
                npcs@.len() < u32::MAX,
                data.wf(),
                data.level == level,
                data.player == player,
                data.turn == Some(GameActor::Player(player)),
                data.player_turns == 1,
                data.time == Time::from_total(0),
                data.action_queue@.len() == 0,
                !data.stop,
                data.event_queue.scheduled() == i,
                data.event_queue.pending().len() == i,
                forall|j: int|
                    0 <= j < i ==> (#[trigger] data.event_queue.pending()[j]).item == GameEvent::Turn(
                        GameActor::NonPlayer(npcs@[j]),
                    ) && data.event_queue.pending()[j].time == Time::from_total(1_000_000),
            decreases npcs.len() - i,
        {
            let ghost before = data.event_queue.pending();
            data.event_queue.add(Time::new(1, 0), GameEvent::Turn(GameActor::NonPlayer(npcs[i])));
            proof {
                let p = choose|p: int|
                    0 <= p <= before.len() && data.event_queue.pending() == #[trigger] before.insert(
                        p,
                        crate::events::Event {
                            time: Time::from_total(1_000_000),
                            generation: data.event_queue.scheduled() as u32,
                            item: GameEvent::Turn(GameActor::NonPlayer(npcs@[i as int])),
                        },
                    );
                if p < i {
                    assert(data.event_queue.pending()[i as int] == before[i - 1]);
                    crate::events::lemma_pending_fire_in_order(&data.event_queue, p, i as int);
                }
                assert(data.event_queue.pending() =~= before.push(
                    crate::events::Event {
                        time: Time::from_total(1_000_000),
                        generation: data.event_queue.scheduled() as u32,
                        item: GameEvent::Turn(GameActor::NonPlayer(npcs@[i as int])),
                    },
                ));
            }
            i = i + 1;
        }
        data
    }

    /// A fresh session on a generated 40 by 30 map: the player stands in the
    /// first room, sees from there and holds the first turn, and every
    /// monster acts one tick later.
    pub fn generate(world: &mut World) -> (d: Data)
        requires
            old(world).entities@.len() == 0,
        ensures
            d.wf(),
            d.turn == Some(GameActor::Player(d.player)),
            d.player_turns == 1,
            d.time == Time::from_total(0),
            !d.stop,
            final(world).position_of(d.player) is Some,
    {
        let mut level = Level::empty(Rect::new_sized(40, 30));
        let (entities, start) = level_gen::make_map(&mut level, world);
        let mut fov = Fov::new(&level);
        let player = level_gen::create_player(&mut level, &mut fov, world, start);
        let mut data = Data::new(level, player, &entities);
        data.fov = fov;
        data
    }

    /// Ends `actor`'s turn: nobody holds the turn and queued actions are
    /// dropped.
    pub fn end_turn(&mut self, actor: GameActor)
        ensures
            *final(self) == (Data { turn: None, action_queue: final(self).action_queue, ..*old(self) }),
            final(self).action_queue@.len() == 0,
    {
        self.turn = None;
        self.action_queue.clear();
    }

    /// Who holds the turn.
    pub fn actor_turn(&self) -> (r: Option<GameActor>)
        ensures
            r == self.turn,
    {
        self.turn
    }

    /// How many turns the player has been granted.
    pub fn turns(&self) -> (n: u32)
        ensures
            n == self.player_turns,
    {
        self.player_turns
    }

    /// Grants the turn to `actor`, counting it when it is the player's (the
    /// count stops at `u32::MAX`).
    pub fn new_turn(&mut self, actor: GameActor)
        ensures
            *final(self) == (Data {
                turn: Some(actor),
                player_turns: final(self).player_turns,
                ..*old(self)
            }),
            final(self).player_turns == if actor is Player && old(self).player_turns < u32::MAX {
                (old(self).player_turns + 1) as u32
            } else {
                old(self).player_turns
            },
    {
        match actor {
            GameActor::Player(_) => {
                if self.player_turns < u32::MAX {
                    self.player_turns = self.player_turns + 1;
                }
            },
            _ => {},
        }
        self.turn = Some(actor);
    }

    /// Schedules `actor`'s next turn `delay` from now.
    pub fn schedule_turn(&mut self, delay: Time, actor: GameActor)
        requires
            old(self).wf(),
        ensures
            final(self).wf(),
            final(self).scheduled_at(old(self), Time::saturated(old(self).time.total() + delay.total()), GameEvent::Turn(actor)),
    {
        self.event_after(delay, GameEvent::Turn(actor));
    }

    /// `self` is `old` with `event` scheduled at `at`, unless the queue has
    /// already numbered as many events as it can, in which case the
    /// simulation halts instead.
    pub open spec fn scheduled_at(&self, old: &Data, at: Time, event: GameEvent) -> bool {
        &&& self.level == old.level
        &&& self.fov == old.fov
        &&& self.turn == old.turn
        &&& self.player_turns == old.player_turns
        &&& self.time == old.time
        &&& self.action_queue == old.action_queue
        &&& self.cursor == old.cursor
        &&& self.input_mode == old.input_mode
        &&& if old.event_queue.scheduled() < u32::MAX {
            &&& self.stop == old.stop
            &&& self.event_queue.scheduled() == old.event_queue.scheduled() + 1
            &&& exists|p: int|
                0 <= p <= old.event_queue.pending().len() && self.event_queue.pending()
                    == #[trigger] old.event_queue.pending().insert(
                    p,
                    crate::events::Event {
                        time: at,
                        generation: self.event_queue.scheduled() as u32,
                        item: event,
                    },
                )
        } else {
            &&& self.stop
            &&& self.event_queue == old.event_queue
        }
    }

    /// Asks the simulation to halt.
    pub fn finish(&mut self)
        ensures
            *final(self) == (Data { stop: true, ..*old(self) }),
    {
        self.stop = true;
    }

    pub fn is_finished(&self) -> (b: bool)
        ensures
            b == self.stop,
    {
        self.stop
    }

    /// Queues an action by `actor`, stamped with the player's turn count.
    pub fn action(&mut self, actor: GameActor, action_type: GameActionType)
        ensures
            *final(self) == (Data { action_queue: final(self).action_queue, ..*old(self) }),
            final(self).action_queue@ == old(self).action_queue@.push(
                GameAction { actor, turn: old(self).player_turns, action: action_type },
            ),
    {
        let turn = self.turns();
        self.action_queue.push(GameAction { actor: actor, turn: turn, action: action_type });
    }

    /// Takes the oldest queued action.
    pub fn next_action(&mut self) -> (r: Option<GameAction>)
        ensures
            *final(self) == (Data { action_queue: final(self).action_queue, ..*old(self) }),
            old(self).action_queue@.len() == 0 ==> r is None && final(self).action_queue@.len() == 0,
            old(self).action_queue@.len() > 0 ==> r == Some(old(self).action_queue@[0])
                && final(self).action_queue@ == old(self).action_queue@.drop_first(),
    {
        if self.action_queue.len() == 0 {
            None
        } else {
            Some(self.action_queue.remove(0))
        }
    }

    /// Schedules `event` now.
    pub fn event(&mut self, event: GameEvent)
        requires
            old(self).wf(),
        ensures
            final(self).wf(),
            final(self).scheduled_at(old(self), Time::saturated(old(self).time.total()), event),
    {
        self.event_after(Time::new(0, 0), event);
    }

    /// Schedules `event` `delay` from now; past the last representable time
    /// it lands on that time.
    pub fn event_after(&mut self, delay: Time, event: GameEvent)
        requires
            old(self).wf(),
        ensures
            final(self).wf(),
            final(self).scheduled_at(old(self), Time::saturated(old(self).time.total() + delay.total()), event),
    {
        let at = self.time + delay;
        self.event_at(at, event);
    }

    /// Schedules `event` at `at`.
    pub fn event_at(&mut self, at: Time, event: GameEvent)
        requires
            old(self).wf(),
        ensures
            final(self).wf(),
            final(self).scheduled_at(old(self), at, event),
    {
        if self.event_queue.can_add() {
            self.event_queue.add(at, event);
        } else {
            self.stop = true;
        }
    }

    /// Takes the next scheduled event and moves the clock to its time.
    pub fn next_event(&mut self) -> (r: Option<(Time, GameEvent)>)
        requires
            old(self).wf(),
        ensures
            final(self).wf(),
            old(self).event_queue.pending().len() == 0 ==> r is None && *final(self) == *old(self),
            old(self).event_queue.pending().len() > 0 ==> {
                let first = old(self).event_queue.pending()[0];
                &&& r == Some((first.time, first.item))
                &&& final(self).time == first.time
                &&& final(self).event_queue.pending() == old(self).event_queue.pending().drop_first()
                &&& final(self).event_queue.scheduled() == old(self).event_queue.scheduled()
                &&& *final(self) == (Data {
                    time: final(self).time,
                    event_queue: final(self).event_queue,
                    ..*old(self)
                })
            },
    {
        if let Some((time, event)) = self.event_queue.next() {
            self.time = time;
            Some((time, event))
        } else {
            None
        }
    }

    /// Switches to looking around, with the cursor on `cursor`.
    pub fn look_mode(&mut self, cursor: Position)
        ensures
            *final(self) == (Data { input_mode: InputMode::Look, cursor: Some(cursor), ..*old(self) }),
    {
        self.input_mode = InputMode::Look;
        self.cursor = Some(cursor);
    }

    /// Switches back to play, without a cursor.
    pub fn play_mode(&mut self)
        ensures
            *final(self) == (Data { input_mode: InputMode::Play, cursor: None, ..*old(self) }),
    {
        self.input_mode = InputMode::Play;
        self.cursor = None;
    }
}

} // verus!
