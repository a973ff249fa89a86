use vstd::prelude::*;
use crate::ecs::{Attributes, EntityId, Position, PER_MILLE};
use crate::factions::Factions;
use crate::fov::Fov;
use crate::goap::{self, Action, AiActionType, AiPredicate, State};
use crate::world::{EntityRecord, World};

verus! {

/// The actor whose options are weighed.
pub struct Agent {
    pub turn_ended: bool,
    pub position: Position,
    pub attributes: Attributes,
}

impl Agent {
    pub fn new(position: Position, attributes: Attributes) -> (a: Agent)
        ensures
            a == (Agent { turn_ended: false, position, attributes }),
    {
        Agent { turn_ended: false, position: position, attributes: attributes }
    }
}

/// A candidate action with its utility for the agent this turn, in
/// thousandths.
pub struct AiAction {
    pub cost: u32,
    pub utility: i64,
    pub action_type: AiActionType,
    pub pre_conditions: State,
    pub post_conditions: State,
}

/// The facts an action of this kind needs.
pub open spec fn pre_of(t: AiActionType) -> Map<AiPredicate, bool> {
    match t {
        AiActionType::Meditate => map![AiPredicate::UnderThreat => false],
        AiActionType::Get(e) => map![AiPredicate::Have(e) => false],
        AiActionType::DrinkPotable(e) => map![AiPredicate::Have(e) => true],
        AiActionType::Attack(_) => map![AiPredicate::UnderThreat => true],
    }
}

/// The facts an action of this kind brings about.
pub open spec fn post_of(t: AiActionType) -> Map<AiPredicate, bool> {
    match t {
        AiActionType::Meditate => map![AiPredicate::UnderThreat => false],
        AiActionType::Get(e) => map![AiPredicate::Have(e) => true],
        AiActionType::DrinkPotable(e) => map![AiPredicate::Have(e) => false],
        AiActionType::Attack(_) => map![AiPredicate::UnderThreat => false],
    }
}

impl AiAction {
    /// Costs one, and its conditions are those of its kind.
    pub open spec fn wf(&self) -> bool {
        &&& self.cost == 1
        &&& self.pre_conditions.wf()
        &&& self.post_conditions.wf()
        &&& self.pre_conditions@ == pre_of(self.action_type)
        &&& self.post_conditions@ == post_of(self.action_type)
    }

    /// The action as the planner sees it.
    pub open spec fn as_plan_action(self) -> Action {
        Action {
            name: self.action_type,
            cost: self.cost,
            pre_conditions: self.pre_conditions,
            post_conditions: self.post_conditions,
        }
    }

    fn build(action_type: AiActionType, utility: i64, key: AiPredicate, pre: bool, post: bool) -> (a: AiAction)
        ensures
            a.cost == 1,
            a.utility == utility,
            a.action_type == action_type,
            a.pre_conditions.wf(),
            a.post_conditions.wf(),
            a.pre_conditions@ == map![key => pre],
            a.post_conditions@ == map![key => post],
    {
        let mut pre_conditions = State::new();
        pre_conditions.insert(key, pre);
        let mut post_conditions = State::new();
        post_conditions.insert(key, post);
        proof {
            assert(pre_conditions@ =~= map![key => pre]);
            assert(post_conditions@ =~= map![key => post]);
        }
        AiAction { cost: 1, utility, action_type, pre_conditions, post_conditions }
    }

    /// The action as the planner sees it.
    pub fn action(self) -> (a: Action)
        ensures
            a == self.as_plan_action(),
    {
        Action {
            name: self.action_type,
            cost: self.cost,
            pre_conditions: self.pre_conditions,
            post_conditions: self.post_conditions,
        }
    }

    /// Calming down: worth more the less calm the agent is.
    pub fn meditate(agent: &Agent) -> (a: AiAction)
        ensures
            a.wf(),
            a.action_type == AiActionType::Meditate,
            a.utility == PER_MILLE - agent.attributes.calmness,
    {
        AiAction::build(
            AiActionType::Meditate,
            PER_MILLE as i64 - agent.attributes.calmness as i64,
            AiPredicate::UnderThreat,
            false,
            false,
        )
    }

    /// Picking up `e`: worth nothing by itself.
    pub fn get(agent: &Agent, e: EntityId) -> (a: AiAction)
        ensures
            a.wf(),
            a.action_type == AiActionType::Get(e),
            a.utility == 0,
    {
        AiAction::build(AiActionType::Get(e), 0, AiPredicate::Have(e), false, true)
    }

    /// Drinking `e`: worth more the less thirsty the agent is.
    pub fn drink(agent: &Agent, e: EntityId) -> (a: AiAction)
        ensures
            a.wf(),
            a.action_type == AiActionType::DrinkPotable(e),
            a.utility == PER_MILLE - agent.attributes.thirst,
    {
        AiAction::build(
            AiActionType::DrinkPotable(e),
            PER_MILLE as i64 - agent.attributes.thirst as i64,
            AiPredicate::Have(e),
            true,
            false,
        )
    }

    /// Attacking `e`: worth the threat it poses.
    pub fn attack(agent: &Agent, e: EntityId, threat: i64) -> (a: AiAction)
        ensures
            a.wf(),
            a.action_type == AiActionType::Attack(e),
            a.utility == threat,
    {
        AiAction::build(AiActionType::Attack(e), threat, AiPredicate::UnderThreat, true, false)
    }
}

/// Whether the field of view shows `p`.
pub open spec fn sees(fov: &Fov, p: Position) -> bool {
    match fov.cell(p) {
        Some(i) => fov.visible_cells()[i],
        None => false,
    }
}

/// The agent's faction regards the faction of `attributes` as hostile.
pub open spec fn hostile(factions: &Factions, agent: &Agent, attributes: Attributes) -> bool {
    factions.opinion(agent.attributes.faction@, attributes.faction@).0 < -500
}

/// The threat a hostile entity standing at `p` poses: whole where it is in
/// view, none otherwise.
pub open spec fn threat(fov: &Fov, p: Position) -> int {
    if sees(fov, p) {
        PER_MILLE as int
    } else {
        0
    }
}

/// The candidate actions, as kind and utility, that entity `id` offers the
/// agent: drinking and fetching it if it is a potable liquid, then attacking
/// it if it is hostile. Only entities with a position and attributes offer
/// anything.
pub open spec fn entries_for(
    agent: &Agent,
    factions: &Factions,
    fov: &Fov,
    id: EntityId,
    record: EntityRecord,
) -> Seq<(AiActionType, int)> {
    match (record.position, record.attributes) {
        (Some(p), Some(attributes)) => {
            let liquid = match record.liquid {
                Some(l) => l.potable,
                None => false,
            };
            (if liquid {
                seq![
                    (AiActionType::DrinkPotable(id), PER_MILLE - agent.attributes.thirst),
                    (AiActionType::Get(id), 0int),
                ]
            } else {
                Seq::<(AiActionType, int)>::empty()
            }) + (if hostile(factions, agent, attributes) {
                seq![(AiActionType::Attack(id), threat(fov, p))]
            } else {
                Seq::<(AiActionType, int)>::empty()
            })
        },
        _ => Seq::<(AiActionType, int)>::empty(),
    }
}

/// The candidate actions that the first `records.len()` entities offer, in
/// entity order.
pub open spec fn catalog_entries(
    agent: &Agent,
    factions: &Factions,
    fov: &Fov,
    records: Seq<EntityRecord>,
) -> Seq<(AiActionType, int)>
    decreases records.len(),
{
    if records.len() == 0 {
        Seq::<(AiActionType, int)>::empty()
    } else {
        catalog_entries(agent, factions, fov, records.drop_last()) + entries_for(
            agent,
            factions,
            fov,
            EntityId((records.len() - 1) as u32),
            records.last(),
        )
    }
}

/// Some hostile entity with a position and attributes stands in view.
pub open spec fn threatened(agent: &Agent, factions: &Factions, fov: &Fov, records: Seq<EntityRecord>) -> bool {
    exists|i: int|
        0 <= i < records.len() && match ((#[trigger] records[i]).position, records[i].attributes) {
            (Some(p), Some(attributes)) => hostile(factions, agent, attributes) && sees(fov, p),
            _ => false,
        }
}

/// Kind and utility of each action, in order.
pub open spec fn summary(actions: Seq<AiAction>) -> Seq<(AiActionType, int)> {
    actions.map_values(|a: AiAction| (a.action_type, a.utility as int))
}

/// Position `i` holds the highest utility, and no earlier position holds as
/// high a one.
pub open spec fn is_first_max(actions: Seq<AiAction>, i: int) -> bool {
    &&& 0 <= i < actions.len()
    &&& forall|j: int| 0 <= j < actions.len() ==> (#[trigger] actions[j]).utility <= actions[i].utility
    &&& forall|j: int| 0 <= j < i ==> (#[trigger] actions[j]).utility < actions[i].utility
}

/// Selection among candidates is deterministic: at most one position holds
/// the first highest utility, so equal catalogs always yield the same
/// choice, the earliest on ties.
pub proof fn lemma_first_max_unique(actions: Seq<AiAction>, i: int, j: int)
    requires
        is_first_max(actions, i),
        is_first_max(actions, j),
    ensures
        i == j,
{
    if i < j {
        assert(actions[i].utility < actions[j].utility);
        assert(actions[i].utility <= actions[j].utility && actions[j].utility <= actions[i].utility);
    } else if j < i {
        assert(actions[j].utility < actions[i].utility);
        assert(actions[j].utility <= actions[i].utility && actions[i].utility <= actions[j].utility);
    }
}

/// The actions as the planner sees them.
pub open spec fn plan_actions(actions: Seq<AiAction>) -> Seq<Action> {
    actions.map_values(|a: AiAction| a.as_plan_action())
}

/// `c` is the catalog that `setup_actions` builds for `agent` from scratch:
/// meditation, then what each entity offers, and `UnderThreat` believed
/// exactly when a hostile entity is in view.
pub open spec fn catalog_for(c: AiActions, agent: Agent, factions: &Factions, view: &Fov, world: &World) -> bool {
    &&& c.wf()
    &&& c.agent == agent
    &&& summary(c.actions@) == seq![(AiActionType::Meditate, PER_MILLE - agent.attributes.calmness)]
        + catalog_entries(&agent, factions, view, world.entities@)
    &&& c.state@ == if threatened(&agent, factions, view, world.entities@) {
        map![AiPredicate::UnderThreat => true]
    } else {
        Map::<AiPredicate, bool>::empty()
    }
}

/// The agent's options this turn and what it currently believes.
pub struct AiActions {
    pub agent: Agent,
    pub actions: Vec<AiAction>,
    pub state: State,
}

impl AiActions {
    pub open spec fn wf(&self) -> bool {
        &&& self.state.wf()
        &&& forall|i: int| 0 <= i < self.actions@.len() ==> (#[trigger] self.actions@[i]).wf()
    }

    /// No option and no belief yet.
    pub fn new(agent: Agent) -> (a: AiActions)
        ensures
            a.wf(),
            a.agent == agent,
            a.actions@.len() == 0,
            a.state@ == Map::<AiPredicate, bool>::empty(),
    {
        AiActions { agent: agent, actions: Vec::new(), state: State::new() }
    }

    pub fn len(&self) -> (n: usize)
        ensures
            n == self.actions@.len(),
    {
        self.actions.len()
    }

    pub fn add_action(&mut self, action: AiAction)
        ensures
            final(self).actions@ == old(self).actions@.push(action),
            final(self).agent == old(self).agent,
            final(self).state == old(self).state,
    {
        self.actions.push(action);
    }

    /// Lists what the agent may do this turn: meditate, then what each entity
    /// of the world offers, in entity order. A hostile entity in view sets
    /// `UnderThreat` in the agent's beliefs.
    pub fn setup_actions(&mut self, factions: &Factions, fov: &Fov, world: &World)
        requires
            old(self).wf(),
            fov.wf(),
            world.entities@.len() <= u32::MAX,
        ensures
            final(self).wf(),
            final(self).agent == old(self).agent,
            summary(final(self).actions@) == summary(old(self).actions@) + seq![
                (AiActionType::Meditate, PER_MILLE - old(self).agent.attributes.calmness),
            ] + catalog_entries(&old(self).agent, factions, fov, world.entities@),
            final(self).state@ == if threatened(&old(self).agent, factions, fov, world.entities@) {
                old(self).state@.insert(AiPredicate::UnderThreat, true)
            } else {
                old(self).state@
            },
    {
        let meditate = AiAction::meditate(&self.agent);
        self.add_action(meditate);
        let ghost start = self.actions@;
        let ghost state0 = self.state@;
        proof {
            assert(summary(start) =~= summary(old(self).actions@) + seq![
                (AiActionType::Meditate, PER_MILLE - old(self).agent.attributes.calmness),
            ]);
        }
        let mut i: usize = 0;
        while i < world.entities.len()
            invariant
                0 <= i <= world.entities@.len(),
                world.entities@.len() <= u32::MAX,
                self.wf(),
                fov.wf(),
                self.agent == old(self).agent,
                state0 == old(self).state@,
                summary(self.actions@) == summary(start) + catalog_entries(
                    &self.agent,
                    factions,
                    fov,
                    world.entities@.subrange(0, i as int),
                ),
                self.state@ == if threatened(
                    &self.agent,
                    factions,
                    fov,
                    world.entities@.subrange(0, i as int),
                ) {
                    state0.insert(AiPredicate::UnderThreat, true)
                } else {
                    state0
                },
            decreases world.entities.len() - i,
        {
            let ghost before = self.actions@;
            let ghost prefix = world.entities@.subrange(0, i as int);
            let ghost next = world.entities@.subrange(0, i + 1);
            let record = &world.entities[i];
            let e = EntityId(i as u32);
            proof {
                assert(next.drop_last() =~= prefix);
                assert(next.last() == *record);
            }
            let ghost threatened_before = threatened(&self.agent, factions, fov, prefix);
            match (&record.position, &record.attributes) {
                (Some(p), Some(attributes)) => {
                    let potable = match &record.liquid {
                        Some(l) => l.potable,
                        None => false,
                    };
                    if potable {
                        let drink = AiAction::drink(&self.agent, e);
                        self.add_action(drink);
                        let get = AiAction::get(&self.agent, e);
                        self.add_action(get);
                    }
                    let ghost mid = self.actions@;
                    let opinion = factions.get(
                        self.agent.attributes.faction.as_str(),
                        attributes.faction.as_str(),
                    );
                    if opinion.is_hostile() {
                        let threat: i64 = if fov.is_in_fov(p.x, p.y) {
                            PER_MILLE as i64
                        } else {
                            0
                        };
                        if threat > 0 {
                            self.state.insert(AiPredicate::UnderThreat, true);
                        }
                        let attack = AiAction::attack(&self.agent, e, threat);
                        self.add_action(attack);
                    }
                    proof {
                        assert(summary(self.actions@) =~= summary(before) + entries_for(
                            &self.agent,
                            factions,
                            fov,
                            e,
                            *record,
                        ));
                        let t = threatened(&self.agent, factions, fov, next);
                        if threatened_before {
                            let k = choose|k: int|
                                0 <= k < prefix.len() && match ((#[trigger] prefix[k]).position, prefix[k].attributes) {
                                    (Some(p), Some(attributes)) => hostile(factions, &self.agent, attributes) && sees(fov, p),
                                    _ => false,
                                };
                            assert(next[k] == prefix[k]);
                        }
                        if t {
                            let k = choose|k: int|
                                0 <= k < next.len() && match ((#[trigger] next[k]).position, next[k].attributes) {
                                    (Some(p), Some(attributes)) => hostile(factions, &self.agent, attributes) && sees(fov, p),
                                    _ => false,
                                };
                            if k < i {
                                assert(prefix[k] == next[k]);
                            }
                        }
                        if opinion.0 < -500 && sees(fov, *p) {
                            assert(next[i as int] == *record);
                        }
                        assert(self.state@ =~= if t {
                            state0.insert(AiPredicate::UnderThreat, true)
                        } else {
                            state0
                        });
                    }
                },
                _ => {
                    proof {
                        assert(summary(self.actions@) =~= summary(before) + entries_for(
                            &self.agent,
                            factions,
                            fov,
                            e,
                            *record,
                        ));
                        let t = threatened(&self.agent, factions, fov, next);
                        if threatened_before {
                            let k = choose|k: int|
                                0 <= k < prefix.len() && match ((#[trigger] prefix[k]).position, prefix[k].attributes) {
                                    (Some(p), Some(attributes)) => hostile(factions, &self.agent, attributes) && sees(fov, p),
                                    _ => false,
                                };
                            assert(next[k] == prefix[k]);
                        }
                        if t {
                            let k = choose|k: int|
                                0 <= k < next.len() && match ((#[trigger] next[k]).position, next[k].attributes) {
                                    (Some(p), Some(attributes)) => hostile(factions, &self.agent, attributes) && sees(fov, p),
                                    _ => false,
                                };
                            if k < i {
                                assert(prefix[k] == next[k]);
                            }
                        }
                    }
                },
            }
            i = i + 1;
        }
        proof {
            assert(world.entities@.subrange(0, world.entities@.len() as int) =~= world.entities@);
        }
    }

    /// The position of the first action of highest utility; `None` when
    /// there is no action.
    pub fn max_utility_index(&self) -> (r: Option<usize>)
        ensures
            r is None <==> self.actions@.len() == 0,
            r is Some ==> is_first_max(self.actions@, r->0 as int),
    {
        if self.actions.len() == 0 {
            return None;
        }
        let mut max_i: usize = 0;
        let mut max_u: i64 = self.actions[0].utility;
        let mut i: usize = 1;
        while i < self.actions.len()
            invariant
                1 <= i <= self.actions@.len(),
                max_i < i,
                max_u == self.actions@[max_i as int].utility,
                forall|j: int| 0 <= j < i ==> (#[trigger] self.actions@[j]).utility <= max_u,
                forall|j: int| 0 <= j < max_i ==> (#[trigger] self.actions@[j]).utility < max_u,
            decreases self.actions.len() - i,
        {
            let u = self.actions[i].utility;
            if u > max_u {
                max_i = i;
                max_u = u;
            }
            i = i + 1;
        }
        Some(max_i)
    }

    /// Plans toward the postconditions of the first action of highest
    /// utility, from the agent's beliefs, with all listed actions available:
    /// the kinds of a cheapest plan, in order. `None` when there is no action
    /// or no plan reaches that goal.
    pub fn plan(&self) -> (r: Option<Vec<AiActionType>>)
        requires
            self.wf(),
        ensures
            self.planned(
                match r {
                    Some(v) => Some(v@),
                    None => None,
                },
            ),
    {
        let mut possible: Vec<Action> = Vec::new();
        let mut i: usize = 0;
        while i < self.actions.len()
            invariant
                0 <= i <= self.actions@.len(),
                self.wf(),
                possible@.len() == i,
                forall|j: int|
                    0 <= j < i ==> {
                        let a = #[trigger] possible@[j];
                        let b = self.actions@[j];
                        &&& a.wf()
                        &&& a.name == b.action_type
                        &&& a.cost == b.cost
                        &&& a.pre_conditions@ == b.pre_conditions@
                        &&& a.post_conditions@ == b.post_conditions@
                    },
            decreases self.actions.len() - i,
        {
            let a = &self.actions[i];
            assert(a.wf());
            possible.push(
                Action {
                    name: a.action_type,
                    cost: a.cost,
                    pre_conditions: a.pre_conditions.copy(),
                    post_conditions: a.post_conditions.copy(),
                },
            );
            i = i + 1;
        }
        let ghost acts = plan_actions(self.actions@);
        proof {
            assert(goap::same_actions(possible@, acts));
        }
        match self.max_utility_index() {
            None => None,
            Some(m) => {
                let goal = &self.actions[m].post_conditions;
                assert(goal.wf());
                match goap::plan(&self.state, goal, &possible) {
                    None => {
                        proof {
                            assert forall|q: Seq<usize>|
                                !#[trigger] goap::reaches(self.state@, goal@, acts, q) by {
                                goap::lemma_same_actions_same_plans(self.state@, possible@, acts, q);
                                assert(!goap::reaches(self.state@, goal@, possible@, q));
                            }
                        }
                        None
                    },
                    Some(steps) => {
                        let mut kinds: Vec<AiActionType> = Vec::new();
                        let mut k: usize = 0;
                        proof {
                            goap::lemma_same_actions_same_plans(self.state@, possible@, acts, steps@);
                            goap::lemma_reaching_plan_in_range(self.state@, goal@, possible@, steps@);
                            assert forall|q: Seq<usize>|
                                #[trigger] goap::reaches(self.state@, goal@, acts, q) implies goap::plan_cost(
                                acts,
                                steps@,
                            ) <= goap::plan_cost(acts, q) by {
                                goap::lemma_same_actions_same_plans(self.state@, possible@, acts, q);
                                assert(goap::reaches(self.state@, goal@, possible@, q));
                            }
                        }
                        while k < steps.len()
                            invariant
                                0 <= k <= steps@.len(),
                                possible@.len() == self.actions@.len(),
                                goap::reaches(self.state@, goal@, acts, steps@),
                                forall|q: Seq<usize>|
                                    #[trigger] goap::reaches(self.state@, goal@, acts, q) ==> goap::plan_cost(
                                        acts,
                                        steps@,
                                    ) <= goap::plan_cost(acts, q),
                                forall|j: int| 0 <= j < steps@.len() ==> steps@[j] < possible@.len(),
                                kinds@ == steps@.subrange(0, k as int).map_values(
                                    |x: usize| self.actions@[x as int].action_type,
                                ),
                            decreases steps.len() - k,
                        {
                            kinds.push(self.actions[steps[k]].action_type);
                            proof {
                                assert(steps@.subrange(0, k + 1).map_values(
                                    |x: usize| self.actions@[x as int].action_type,
                                ) =~= steps@.subrange(0, k as int).map_values(
                                    |x: usize| self.actions@[x as int].action_type,
                                ).push(self.actions@[steps@[k as int] as int].action_type));
                            }
                            k = k + 1;
                        }
                        proof {
                            assert(steps@.subrange(0, steps@.len() as int) =~= steps@);
                        }
                        Some(kinds)
                    },
                }
            },
        }
    }

    /// `r` is what planning gives here: `None` when there is no action;
    /// otherwise, for the first action `m` of highest utility, the kinds of a
    /// cheapest plan from the agent's beliefs to `m`'s postconditions, or
    /// `None` when no plan reaches them.
    pub open spec fn planned(&self, r: Option<Seq<AiActionType>>) -> bool {
        &&& self.actions@.len() == 0 ==> r is None
        &&& self.actions@.len() > 0 ==> exists|m: int|
            #![trigger self.actions@[m]]
            is_first_max(self.actions@, m) && ({
                let goal = self.actions@[m].post_conditions@;
                let acts = plan_actions(self.actions@);
                &&& r is None ==> forall|q: Seq<usize>| !#[trigger] goap::reaches(self.state@, goal, acts, q)
                &&& r is Some ==> exists|p: Seq<usize>|
                    #[trigger] goap::reaches(self.state@, goal, acts, p) && r->0 == p.map_values(
                        |k: usize| self.actions@[k as int].action_type,
                    ) && forall|q: Seq<usize>|
                        #[trigger] goap::reaches(self.state@, goal, acts, q) ==> goap::plan_cost(acts, p)
                            <= goap::plan_cost(acts, q)
            })
    }

    /// The first action of highest utility; `None` when there is no action.
    pub fn find_max_utility(&self) -> (r: Option<&AiAction>)
        ensures
            r is None <==> self.actions@.len() == 0,
            r is Some ==> exists|i: int| is_first_max(self.actions@, i) && r->0 == &self.actions@[i],
    {
        match self.max_utility_index() {
            Some(i) => Some(&self.actions[i]),
            None => None,
        }
    }
}

} // verus!
