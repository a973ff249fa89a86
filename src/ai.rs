use vstd::prelude::*;
use crate::actions::{catalog_for, summary, Agent, AiActions};
use crate::ecs::Attributes;
use crate::fov::own_view;
use crate::level::Level;
use crate::system::GameAction;
use crate::data::Data;
use crate::ecs::{EntityId, Position};
use crate::fov::Fov;
use crate::goap::AiActionType;
use crate::path::{is_path, PathFinder};
use crate::system::{GameActionType, GameActor};
use crate::world::World;

verus! {

/// Decides the turns of non-player actors.
pub struct Ai {}

impl Default for Ai {
    fn default() -> (a: Ai) {
        Ai {}
    }
}

/// The game action that carries out the first planned step, given the
/// walk found toward an attack's target: meditation passes the turn, an
/// attack steps to the second cell of a walk of two cells or more, anything
/// else does nothing.
pub open spec fn action_for_spec(
    step: AiActionType,
    actor: Position,
    path: Option<Seq<Position>>,
) -> Option<GameActionType> {
    match step {
        AiActionType::Meditate => Some(GameActionType::Pass),
        AiActionType::Attack(_) => match path {
            Some(p) => if p.len() >= 2 {
                Some(GameActionType::MoveAttack((p[1].x - actor.x) as i32, (p[1].y - actor.y) as i32))
            } else {
                None
            },
            None => None,
        },
        _ => None,
    }
}

/// Whether `po` is what the pathfinder gives from `p` to `q`: a walk when
/// there is one, and `None` only when there is none.
pub open spec fn path_found(level: &Level, p: Position, q: Position, po: Option<Seq<Position>>) -> bool {
    match po {
        Some(w) => is_path(level, p, q, w),
        None => forall|w: Seq<Position>| !#[trigger] is_path(level, p, q, w),
    }
}

/// The action, if any, as a sequence of none or one.
pub open spec fn as_seq(o: Option<GameActionType>) -> Seq<GameActionType> {
    match o {
        Some(a) => seq![a],
        None => Seq::<GameActionType>::empty(),
    }
}

/// `x` are the game actions that carry out the first step of the plan `r`
/// of an actor standing at `p`: for an attack, from a walk toward the
/// target as the pathfinder finds it.
pub open spec fn step_actions(
    level: &Level,
    world: World,
    p: Position,
    r: Option<Seq<AiActionType>>,
    x: Seq<GameActionType>,
) -> bool {
    match r {
        Some(ks) => if ks.len() > 0 {
            match ks[0] {
                AiActionType::Attack(t) => match world.position_of(t) {
                    Some(q) => exists|po: Option<Seq<Position>>|
                        #[trigger] path_found(level, p, q, po) && x == as_seq(action_for_spec(ks[0], p, po)),
                    None => x == Seq::<GameActionType>::empty(),
                },
                _ => x == as_seq(action_for_spec(ks[0], p, None)),
            }
        } else {
            x == Seq::<GameActionType>::empty()
        },
        None => x == Seq::<GameActionType>::empty(),
    }
}

/// The actor at `p` with `attributes` decides on `x`: it sees `view` from
/// where it stands, weighs the catalog `c` built from it, plans `r`, and
/// carries out the plan's first step.
pub open spec fn decision(
    old: Data,
    world: World,
    p: Position,
    attributes: Attributes,
    view: Fov,
    c: AiActions,
    r: Option<Seq<AiActionType>>,
    x: Seq<GameActionType>,
) -> bool {
    &&& own_view(view, &old.level, p, attributes.vision_radius)
    &&& catalog_for(c, Agent { turn_ended: false, position: p, attributes }, &old.factions, &view, &world)
    &&& c.planned(r)
    &&& step_actions(&old.level, world, p, r, x)
}

/// The queued game action for `a` by the actor.
pub open spec fn queued(entity: EntityId, turn: u32, a: GameActionType) -> GameAction {
    GameAction { actor: GameActor::NonPlayer(entity), turn, action: a }
}

/// `new` is `old` with the driver's actions for `entity` queued: one or
/// two actions by it, stamped with the player's turn count, the last a pass.
/// When the entity has a position and attributes, the first, if any, carries
/// out the first step of its plan; otherwise only the pass is queued.
pub open spec fn driver_queued(old: Data, new: Data, world: World, entity: EntityId) -> bool {
    &&& new.level == old.level
    &&& new.fov == old.fov
    &&& new.turn == old.turn
    &&& new.time == old.time
    &&& new.event_queue == old.event_queue
    &&& new.player_turns == old.player_turns
    &&& new.stop == old.stop
    &&& new.cursor == old.cursor
    &&& new.input_mode == old.input_mode
    &&& new.player == old.player
    &&& new.factions == old.factions
    &&& ({
        let added = new.action_queue@.subrange(old.action_queue@.len() as int, new.action_queue@.len() as int);
        &&& new.action_queue@.len() >= old.action_queue@.len()
        &&& new.action_queue@.subrange(0, old.action_queue@.len() as int) == old.action_queue@
        &&& 1 <= added.len() <= 2
        &&& forall|i: int|
            0 <= i < added.len() ==> (#[trigger] added[i]).actor == GameActor::NonPlayer(entity)
                && added[i].turn == old.player_turns
        &&& added.last().action == GameActionType::Pass
        &&& added.len() == 2 ==> added[0].action == GameActionType::Pass || exists|dx: i32, dy: i32|
            added[0].action == GameActionType::MoveAttack(dx, dy) && -1 <= dx <= 1 && -1 <= dy <= 1
        &&& match (world.position_of(entity), world.attributes_of(entity)) {
            (Some(p), Some(attributes)) => exists|
                view: Fov,
                c: AiActions,
                r: Option<Seq<AiActionType>>,
                x: Seq<GameActionType>,
            |
                #[trigger] decision(old, world, p, attributes, view, c, r, x) && added == x.map_values(
                    |a: GameActionType| queued(entity, old.player_turns, a),
                ).push(queued(entity, old.player_turns, GameActionType::Pass)),
            _ => added == seq![queued(entity, old.player_turns, GameActionType::Pass)],
        }
    })
}

impl Ai {
    /// The game action that carries out the first planned step `step` of an
    /// actor standing at `actor`; `path` is the walk toward the target when
    /// the step is an attack.
    pub fn action_for(step: AiActionType, actor: &Position, path: &Option<Vec<Position>>) -> (r:
        Option<GameActionType>)
        requires
            match path {
                Some(p) => p@.len() >= 2 ==> actor.is_neighbour(p@[1]),
                None => true,
            },
        ensures
            r == action_for_spec(
                step,
                *actor,
                match path {
                    Some(p) => Some(p@),
                    None => None,
                },
            ),
    {
        match step {
            AiActionType::Meditate => Some(GameActionType::Pass),
            AiActionType::Attack(_) => match path {
                Some(p) => {
                    if p.len() >= 2 {
                        let next = p[1];
                        Some(GameActionType::MoveAttack(next.x - actor.x, next.y - actor.y))
                    } else {
                        None
                    }
                },
                None => None,
            },
            _ => None,
        }
    }

    /// Queues the actions of non-player `entity` for this turn: it weighs its
    /// options against what it sees from where it stands, plans, and queues
    /// the game action for the first step of its plan, if any, then always a
    /// pass so that the turn ends.
    pub fn schedule_ai_actions(&mut self, app: &mut Data, entity: EntityId, world: &World)
        requires
            old(app).wf(),
            world.entities@.len() <= u32::MAX,
        ensures
            final(app).wf(),
            driver_queued(*old(app), *final(app), *world, entity),
    {
        let ghost start = *app;
        let actor = GameActor::NonPlayer(entity);
        let turn = app.turns();
        let position = world.position(entity);
        let attributes = world.attributes(entity);
        match (position, attributes) {
            (Some(entity_position), Some(attributes)) => {
                let vision_radius = attributes.vision_radius;
                let agent = Agent::new(entity_position, attributes.copy());
                let mut view = Fov::new(&app.level);
                let ghost fresh = view;
                if app.level.contains(entity_position.x, entity_position.y) {
                    view.compute(&entity_position, vision_radius);
                }
                let mut ai_actions = AiActions::new(agent);
                ai_actions.setup_actions(&app.factions, &view, world);
                let planned = ai_actions.plan();
                let ghost r = match &planned {
                    Some(v) => Some(v@),
                    None => None::<Seq<AiActionType>>,
                };
                let mut chosen: Option<GameActionType> = None;
                if let Some(actions) = &planned {
                    if actions.len() > 0 {
                        let step = actions[0];
                        match step {
                            AiActionType::Attack(target) => match world.position(target) {
                                Some(target_position) => {
                                    let pathfinder = PathFinder::new(&app.level);
                                    let path = match pathfinder.path(&entity_position, &target_position) {
                                        Some((path, _cost)) => {
                                            proof {
                                                if path@.len() >= 2 {
                                                    assert(crate::path::is_step(
                                                        &app.level,
                                                        path@[0],
                                                        path@[1],
                                                        target_position,
                                                    ));
                                                }
                                            }
                                            Some(path)
                                        },
                                        None => None,
                                    };
                                    let ghost po = match &path {
                                        Some(w) => Some(w@),
                                        None => None::<Seq<Position>>,
                                    };
                                    chosen = Ai::action_for(step, &entity_position, &path);
                                    proof {
                                        assert(path_found(&start.level, entity_position, target_position, po));
                                    }
                                },
                                None => {},
                            },
                            _ => {
                                chosen = Ai::action_for(step, &entity_position, &None);
                            },
                        }
                    }
                }
                proof {
                    assert(step_actions(&start.level, *world, entity_position, r, as_seq(chosen)));
                    let agent_spec = Agent {
                        turn_ended: false,
                        position: entity_position,
                        attributes: *attributes,
                    };
                    assert(summary(Seq::<crate::actions::AiAction>::empty()) =~= Seq::<(AiActionType, int)>::empty());
                    assert(seq![(AiActionType::Meditate, crate::ecs::PER_MILLE - agent_spec.attributes.calmness)]
                        =~= Seq::<(AiActionType, int)>::empty() + seq![
                        (AiActionType::Meditate, crate::ecs::PER_MILLE - agent_spec.attributes.calmness),
                    ]);
                    assert(Map::<crate::goap::AiPredicate, bool>::empty().insert(
                        crate::goap::AiPredicate::UnderThreat,
                        true,
                    ) =~= map![crate::goap::AiPredicate::UnderThreat => true]);
                    assert(catalog_for(ai_actions, agent_spec, &start.factions, &view, world));
                    assert(own_view(view, &start.level, entity_position, attributes.vision_radius));
                    assert(decision(start, *world, entity_position, *attributes, view, ai_actions, r, as_seq(chosen)));
                }
                if let Some(game_action) = chosen {
                    app.action(actor, game_action);
                }
                app.action(actor, GameActionType::Pass);
                proof {
                    let added = app.action_queue@.subrange(
                        start.action_queue@.len() as int,
                        app.action_queue@.len() as int,
                    );
                    assert(app.action_queue@.subrange(0, start.action_queue@.len() as int) =~= start.action_queue@);
                    assert(added =~= as_seq(chosen).map_values(
                        |a: GameActionType| queued(entity, start.player_turns, a),
                    ).push(queued(entity, start.player_turns, GameActionType::Pass)));
                    if added.len() == 2 {
                        assert(added[0] == app.action_queue@[start.action_queue@.len() as int]);
                    }
                }
            },
            _ => {
                app.action(actor, GameActionType::Pass);
                proof {
                    let added = app.action_queue@.subrange(
                        start.action_queue@.len() as int,
                        app.action_queue@.len() as int,
                    );
                    assert(app.action_queue@.subrange(0, start.action_queue@.len() as int) =~= start.action_queue@);
                    assert(added =~= seq![queued(entity, start.player_turns, GameActionType::Pass)]);
                }
            },
        }
    }
}

} // verus!
