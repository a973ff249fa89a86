use vstd::prelude::*;
use crate::ecs::EntityId;

verus! {

/// A symbolic fact about the world that actions require or bring about.
#[derive(PartialEq, Eq, Structural, Clone, Copy, Debug, PartialOrd, Ord, Hash)]
pub enum AiPredicate {
    Have(EntityId),
    UnderThreat,
}

/// What an action is, with the entity it is aimed at.
#[derive(PartialEq, Eq, Structural, Clone, Copy, Debug, Hash)]
pub enum AiActionType {
    Meditate,
    DrinkPotable(EntityId),
    Get(EntityId),
    Attack(EntityId),
}

/// A symbolic world state: a value for some facts. Facts without a value are
/// unknown.
#[derive(PartialEq, Eq, Clone, Debug, Hash)]
pub struct State {
    facts: Vec<(AiPredicate, bool)>,
}

impl View for State {
    type V = Map<AiPredicate, bool>;

    closed spec fn view(&self) -> Map<AiPredicate, bool> {
        Map::new(
            |k: AiPredicate| exists|i: int| 0 <= i < self.facts@.len() && self.facts@[i].0 == k,
            |k: AiPredicate|
                self.facts@[choose|i: int| 0 <= i < self.facts@.len() && self.facts@[i].0 == k].1,
        )
    }
}

/// Every fact of `target` holds in `s` with the same value; facts that
/// `target` leaves unknown do not matter, and a fact unknown in `s` does not
/// hold.
pub open spec fn satisfies(s: Map<AiPredicate, bool>, target: Map<AiPredicate, bool>) -> bool {
    forall|k: AiPredicate|
        #[trigger] target.contains_key(k) ==> s.contains_key(k) && s[k] == target[k]
}

impl State {
    /// Each fact has at most one value.
    pub closed spec fn wf(&self) -> bool {
        forall|i: int, j: int|
            0 <= i < j < self.facts@.len() ==> #[trigger] self.facts@[i].0
                != #[trigger] self.facts@[j].0
    }

    proof fn lemma_entry(&self, i: int)
        requires
            self.wf(),
            0 <= i < self.facts@.len(),
        ensures
            self@.contains_key(self.facts@[i].0),
            self@[self.facts@[i].0] == self.facts@[i].1,
    {
        let p = self.facts@[i].0;
        assert(0 <= i < self.facts@.len() && self.facts@[i].0 == p);
        let k = choose|k: int| 0 <= k < self.facts@.len() && self.facts@[k].0 == p;
        if k != i {
            if k < i {
                assert(self.facts@[k].0 != self.facts@[i].0);
            } else {
                assert(self.facts@[i].0 != self.facts@[k].0);
            }
        }
    }

    proof fn lemma_view_of(&self, m: Map<AiPredicate, bool>)
        requires
            self.wf(),
            forall|i: int|
                0 <= i < self.facts@.len() ==> m.contains_key(#[trigger] self.facts@[i].0)
                    && m[self.facts@[i].0] == self.facts@[i].1,
            forall|p: AiPredicate|
                m.contains_key(p) ==> exists|i: int|
                    0 <= i < self.facts@.len() && #[trigger] self.facts@[i].0 == p,
        ensures
            self@ == m,
    {
        assert forall|p: AiPredicate| #[trigger] self@.contains_key(p) implies m.contains_key(p)
            && self@[p] == m[p] by {
            let i = choose|i: int| 0 <= i < self.facts@.len() && self.facts@[i].0 == p;
            self.lemma_entry(i);
        }
        assert(self@ =~= m);
    }

    fn find(&self, key: &AiPredicate) -> (r: Option<usize>)
        requires
            self.wf(),
        ensures
            r is Some ==> r->0 < self.facts@.len() && self.facts@[r->0 as int].0 == *key,
            r is None ==> !self@.contains_key(*key),
    {
        let mut i: usize = 0;
        while i < self.facts.len()
            invariant
                0 <= i <= self.facts@.len(),
                forall|j: int| 0 <= j < i ==> #[trigger] self.facts@[j].0 != *key,
            decreases self.facts.len() - i,
        {
            if self.facts[i].0 == *key {
                return Some(i);
            }
            i = i + 1;
        }
        None
    }

    /// A state with no known fact.
    pub fn new() -> (s: State)
        ensures
            s.wf(),
            s@ == Map::<AiPredicate, bool>::empty(),
    {
        let s = State { facts: Vec::new() };
        assert(s@ =~= Map::<AiPredicate, bool>::empty());
        s
    }

    /// Sets the value of a fact, replacing any earlier one.
    pub fn insert(&mut self, key: AiPredicate, value: bool)
        requires
            old(self).wf(),
        ensures
            final(self).wf(),
            final(self)@ == old(self)@.insert(key, value),
    {
        let ghost m = self@.insert(key, value);
        match self.find(&key) {
            Some(i) => {
                let ghost before = self.facts@;
                proof {
                    assert forall|j: int| 0 <= j < before.len() implies #[trigger] m.contains_key(
                        before[j].0,
                    ) && (j != i ==> m[before[j].0] == before[j].1) by {
                        self.lemma_entry(j);
                        if j != i {
                            if j < i {
                                assert(before[j].0 != before[i as int].0);
                            } else {
                                assert(before[i as int].0 != before[j].0);
                            }
                        }
                    }
                    assert forall|p: AiPredicate| m.contains_key(p) implies exists|j: int|
                        0 <= j < before.len() && #[trigger] before[j].0 == p by {
                        if p != key {
                            assert(self@.contains_key(p));
                        }
                    }
                }
                self.facts.set(i, (key, value));
                proof {
                    assert forall|p: AiPredicate| m.contains_key(p) implies exists|j: int|
                        0 <= j < self.facts@.len() && #[trigger] self.facts@[j].0 == p by {
                        let j = choose|j: int| 0 <= j < before.len() && #[trigger] before[j].0 == p;
                        assert(self.facts@[j].0 == p);
                    }
                    self.lemma_view_of(m);
                }
            },
            None => {
                let ghost before = self.facts@;
                proof {
                    assert forall|j: int| 0 <= j < before.len() implies #[trigger] m.contains_key(
                        before[j].0,
                    ) && m[before[j].0] == before[j].1 by {
                        self.lemma_entry(j);
                    }
                }
                self.facts.push((key, value));
                proof {
                    assert forall|p: AiPredicate| m.contains_key(p) implies exists|j: int|
                        0 <= j < self.facts@.len() && #[trigger] self.facts@[j].0 == p by {
                        if p == key {
                            assert(self.facts@[before.len() as int].0 == p);
                        } else {
                            assert(old(self)@.contains_key(p));
                            let j = choose|j: int| 0 <= j < before.len() && #[trigger] before[j].0 == p;
                            assert(self.facts@[j].0 == p);
                        }
                    }
                    self.lemma_view_of(m);
                }
            },
        }
    }

    /// The value of a fact, if known.
    pub fn get(&self, key: &AiPredicate) -> (r: Option<bool>)
        requires
            self.wf(),
        ensures
            self@.contains_key(*key) ==> r == Some(self@[*key]),
            !self@.contains_key(*key) ==> r is None,
    {
        match self.find(key) {
            Some(i) => {
                proof {
                    self.lemma_entry(i as int);
                }
                Some(self.facts[i].1)
            },
            None => None,
        }
    }

    /// Whether every fact of `target` holds here with the same value.
    pub fn satisfies(&self, target: &State) -> (b: bool)
        requires
            self.wf(),
            target.wf(),
        ensures
            b == satisfies(self@, target@),
    {
        let mut i: usize = 0;
        while i < target.facts.len()
            invariant
                0 <= i <= target.facts@.len(),
                self.wf(),
                target.wf(),
                forall|j: int|
                    0 <= j < i ==> self@.contains_key(#[trigger] target.facts@[j].0)
                        && self@[target.facts@[j].0] == target.facts@[j].1,
            decreases target.facts.len() - i,
        {
            let (key, value) = target.facts[i];
            match self.get(&key) {
                Some(v) => {
                    if v != value {
                        proof {
                            target.lemma_entry(i as int);
                        }
                        return false;
                    }
                },
                None => {
                    proof {
                        target.lemma_entry(i as int);
                    }
                    return false;
                },
            }
            i = i + 1;
        }
        proof {
            assert forall|k: AiPredicate| #[trigger] target@.contains_key(k) implies self@.contains_key(k)
                && self@[k] == target@[k] by {
                let j = choose|j: int| 0 <= j < target.facts@.len() && target.facts@[j].0 == k;
                target.lemma_entry(j);
            }
        }
        true
    }

    /// A copy of this state.
    pub fn copy(&self) -> (s: State)
        requires
            self.wf(),
        ensures
            s.wf(),
            s@ == self@,
    {
        let mut facts: Vec<(AiPredicate, bool)> = Vec::new();
        let mut i: usize = 0;
        while i < self.facts.len()
            invariant
                0 <= i <= self.facts@.len(),
                facts@ == self.facts@.subrange(0, i as int),
            decreases self.facts.len() - i,
        {
            facts.push(self.facts[i]);
            i = i + 1;
        }
        assert(facts@ =~= self.facts@);
        State { facts }
    }

    /// This state with every fact of `post` set to its value there.
    pub fn apply(&self, post: &State) -> (s: State)
        requires
            self.wf(),
            post.wf(),
        ensures
            s.wf(),
            s@ == self@.union_prefer_right(post@),
    {
        let mut s = self.copy();
        let mut i: usize = 0;
        while i < post.facts.len()
            invariant
                0 <= i <= post.facts@.len(),
                s.wf(),
                post.wf(),
                s@ == self@.union_prefer_right(
                    post@.restrict(
                        Set::new(|k: AiPredicate| exists|j: int| 0 <= j < i && post.facts@[j].0 == k),
                    ),
                ),
            decreases post.facts.len() - i,
        {
            let (key, value) = post.facts[i];
            let ghost before = s@;
            s.insert(key, value);
            proof {
                post.lemma_entry(i as int);
                let old_keys = Set::new(
                    |k: AiPredicate| exists|j: int| 0 <= j < i && post.facts@[j].0 == k,
                );
                let new_keys = Set::new(
                    |k: AiPredicate| exists|j: int| 0 <= j < i + 1 && post.facts@[j].0 == k,
                );
                assert(new_keys =~= old_keys.insert(key)) by {
                    assert forall|k: AiPredicate| new_keys.contains(k) implies #[trigger] old_keys.insert(
                        key,
                    ).contains(k) by {
                        let j = choose|j: int| 0 <= j < i + 1 && post.facts@[j].0 == k;
                        if j < i {
                            assert(old_keys.contains(k));
                        }
                    }
                    assert forall|k: AiPredicate| old_keys.insert(key).contains(k) implies #[trigger] new_keys.contains(
                        k,
                    ) by {
                        if k == key {
                            assert(post.facts@[i as int].0 == k);
                        } else {
                            let j = choose|j: int| 0 <= j < i && post.facts@[j].0 == k;
                            assert(post.facts@[j].0 == k);
                        }
                    }
                }
                assert(s@ =~= self@.union_prefer_right(post@.restrict(new_keys)));
            }
            i = i + 1;
        }
        proof {
            let all = Set::new(
                |k: AiPredicate| exists|j: int| 0 <= j < post.facts@.len() && post.facts@[j].0 == k,
            );
            assert(post@.restrict(all) =~= post@) by {
                assert forall|k: AiPredicate| post@.contains_key(k) implies #[trigger] all.contains(k) by {
                    let j = choose|j: int| 0 <= j < post.facts@.len() && post.facts@[j].0 == k;
                    assert(post.facts@[j].0 == k);
                }
            }
        }
        s
    }
}

/// An action the planner may use: what it is, what it costs, what it needs
/// and what it brings about.
#[derive(Debug)]
pub struct Action {
    pub name: AiActionType,
    pub cost: u32,
    pub pre_conditions: State,
    pub post_conditions: State,
}

impl Action {
    pub open spec fn wf(&self) -> bool {
        self.pre_conditions.wf() && self.post_conditions.wf()
    }

    /// An action with no condition and no effect.
    pub fn new(name: AiActionType, cost: u32) -> (a: Action)
        ensures
            a.wf(),
            a.name == name,
            a.cost == cost,
            a.pre_conditions@ == Map::<AiPredicate, bool>::empty(),
            a.post_conditions@ == Map::<AiPredicate, bool>::empty(),
    {
        Action { name, cost, pre_conditions: State::new(), post_conditions: State::new() }
    }
}

/// Builds a world state fact by fact.
pub trait StateBuilder: Sized {
    /// The facts the value holds.
    spec fn facts(&self) -> Map<AiPredicate, bool>;

    spec fn well_formed(&self) -> bool;

    /// The same facts with `name` set to `value`.
    fn with(self, name: AiPredicate, value: bool) -> (r: Self)
        requires
            self.well_formed(),
        ensures
            r.well_formed(),
            r.facts() == self.facts().insert(name, value),
    ;
}

impl StateBuilder for State {
    open spec fn facts(&self) -> Map<AiPredicate, bool> {
        self@
    }

    open spec fn well_formed(&self) -> bool {
        self.wf()
    }

    fn with(self, name: AiPredicate, value: bool) -> (r: State) {
        let mut s = self;
        s.insert(name, value);
        s
    }
}

/// Builds an action condition by condition.
pub trait ActionBuilder: Sized {
    /// What the action needs.
    spec fn needs(&self) -> Map<AiPredicate, bool>;

    /// What the action brings about.
    spec fn brings(&self) -> Map<AiPredicate, bool>;

    spec fn well_formed(&self) -> bool;

    /// An action with no condition and no effect.
    fn build(name: AiActionType, cost: u32) -> (r: Self)
        ensures
            r.well_formed(),
            r.needs() == Map::<AiPredicate, bool>::empty(),
            r.brings() == Map::<AiPredicate, bool>::empty(),
    ;

    /// The same action, also needing `name` to be `value`.
    fn pre(self, name: AiPredicate, value: bool) -> (r: Self)
        requires
            self.well_formed(),
        ensures
            r.well_formed(),
            r.needs() == self.needs().insert(name, value),
            r.brings() == self.brings(),
    ;

    /// The same action, also setting `name` to `value`.
    fn post(self, name: AiPredicate, value: bool) -> (r: Self)
        requires
            self.well_formed(),
        ensures
            r.well_formed(),
            r.needs() == self.needs(),
            r.brings() == self.brings().insert(name, value),
    ;
}

impl ActionBuilder for Action {
    open spec fn needs(&self) -> Map<AiPredicate, bool> {
        self.pre_conditions@
    }

    open spec fn brings(&self) -> Map<AiPredicate, bool> {
        self.post_conditions@
    }

    open spec fn well_formed(&self) -> bool {
        self.wf()
    }

    fn build(name: AiActionType, cost: u32) -> (r: Action) {
        Action::new(name, cost)
    }

    fn pre(self, name: AiPredicate, value: bool) -> (r: Action) {
        let mut a = self;
        a.pre_conditions.insert(name, value);
        a
    }

    fn post(self, name: AiPredicate, value: bool) -> (r: Action) {
        let mut a = self;
        a.post_conditions.insert(name, value);
        a
    }
}

/// Every action of the list is well formed.
pub open spec fn all_wf(actions: Seq<Action>) -> bool {
    forall|i: int| 0 <= i < actions.len() ==> (#[trigger] actions[i]).wf()
}

/// The action's preconditions hold in `s`.
pub open spec fn applicable(s: Map<AiPredicate, bool>, a: Action) -> bool {
    satisfies(s, a.pre_conditions@)
}

/// `s` once the action's postconditions are set.
pub open spec fn apply_action(s: Map<AiPredicate, bool>, a: Action) -> Map<AiPredicate, bool> {
    s.union_prefer_right(a.post_conditions@)
}

/// The state reached by taking the actions at the positions `plan` lists, in
/// order, from `s`; `None` where a position is out of range or an action's
/// preconditions do not hold when its turn comes.
pub open spec fn run_plan(s: Map<AiPredicate, bool>, actions: Seq<Action>, plan: Seq<usize>) -> Option<
    Map<AiPredicate, bool>,
>
    decreases plan.len(),
{
    if plan.len() == 0 {
        Some(s)
    } else if plan[0] < actions.len() && applicable(s, actions[plan[0] as int]) {
        run_plan(apply_action(s, actions[plan[0] as int]), actions, plan.drop_first())
    } else {
        None
    }
}

/// The total cost of the actions at the positions `plan` lists (positions
/// out of range count for nothing).
pub open spec fn plan_cost(actions: Seq<Action>, plan: Seq<usize>) -> int
    decreases plan.len(),
{
    if plan.len() == 0 {
        0
    } else if plan[0] < actions.len() {
        actions[plan[0] as int].cost + plan_cost(actions, plan.drop_first())
    } else {
        plan_cost(actions, plan.drop_first())
    }
}

/// `plan` can be carried out from `s` and ends in a state that satisfies
/// `goal`.
pub open spec fn reaches(
    s: Map<AiPredicate, bool>,
    goal: Map<AiPredicate, bool>,
    actions: Seq<Action>,
    plan: Seq<usize>,
) -> bool {
    match run_plan(s, actions, plan) {
        Some(end) => satisfies(end, goal),
        None => false,
    }
}

/// The state reached from `s` by setting, in order, the postconditions of the
/// actions at the positions `plan` lists, whatever their preconditions.
pub open spec fn apply_all(s: Map<AiPredicate, bool>, actions: Seq<Action>, plan: Seq<usize>) -> Map<
    AiPredicate,
    bool,
>
    decreases plan.len(),
{
    if plan.len() == 0 {
        s
    } else {
        apply_all(apply_action(s, actions[plan[0] as int]), actions, plan.drop_first())
    }
}

/// Every state satisfies itself as a goal, so planning from a state to that
/// same state yields the empty plan.
pub proof fn lemma_state_satisfies_itself(s: Map<AiPredicate, bool>)
    ensures
        satisfies(s, s),
{
}

/// A plan that reaches a goal is sound: setting the postconditions of its
/// actions in order, starting from the initial state, gives a state in which
/// every fact of the goal holds.
pub proof fn lemma_plan_sound(
    s: Map<AiPredicate, bool>,
    goal: Map<AiPredicate, bool>,
    actions: Seq<Action>,
    plan: Seq<usize>,
)
    requires
        reaches(s, goal, actions, plan),
    ensures
        satisfies(apply_all(s, actions, plan), goal),
    decreases plan.len(),
{
    if plan.len() > 0 {
        lemma_plan_sound(apply_action(s, actions[plan[0] as int]), goal, actions, plan.drop_first());
    }
}

/// A plan that reaches a goal only names positions of the list.
pub proof fn lemma_reaching_plan_in_range(
    s: Map<AiPredicate, bool>,
    goal: Map<AiPredicate, bool>,
    actions: Seq<Action>,
    plan: Seq<usize>,
)
    requires
        reaches(s, goal, actions, plan),
    ensures
        forall|j: int| 0 <= j < plan.len() ==> #[trigger] plan[j] < actions.len(),
    decreases plan.len(),
{
    if plan.len() > 0 {
        let rest = plan.drop_first();
        lemma_reaching_plan_in_range(apply_action(s, actions[plan[0] as int]), goal, actions, rest);
        assert forall|j: int| 0 <= j < plan.len() implies #[trigger] plan[j] < actions.len() by {
            if j > 0 {
                assert(plan[j] == rest[j - 1]);
            }
        }
    }
}

/// The two lists hold actions of the same costs, preconditions and
/// postconditions, position by position.
pub open spec fn same_actions(a: Seq<Action>, b: Seq<Action>) -> bool {
    &&& a.len() == b.len()
    &&& forall|i: int|
        0 <= i < a.len() ==> (#[trigger] a[i]).cost == b[i].cost && a[i].pre_conditions@
            == b[i].pre_conditions@ && a[i].post_conditions@ == b[i].post_conditions@
}

/// Plans only see actions through their costs and conditions.
pub proof fn lemma_same_actions_same_plans(
    s: Map<AiPredicate, bool>,
    a: Seq<Action>,
    b: Seq<Action>,
    plan: Seq<usize>,
)
    requires
        same_actions(a, b),
    ensures
        run_plan(s, a, plan) == run_plan(s, b, plan),
        plan_cost(a, plan) == plan_cost(b, plan),
    decreases plan.len(),
{
    if plan.len() > 0 {
        if plan[0] < a.len() {
            assert(a[plan[0] as int].cost == b[plan[0] as int].cost);
            lemma_same_actions_same_plans(
                apply_action(s, a[plan[0] as int]),
                a,
                b,
                plan.drop_first(),
            );
        }
        lemma_same_actions_same_plans(s, a, b, plan.drop_first());
    }
}

/// A node of the search: a state, and the position of the action that led
/// to it.
#[derive(PartialEq, Eq, Clone, Debug, Hash)]
pub struct PlanNode {
    pub state: State,
    pub via: usize,
}

/// The nodes one action away from `node`, each with that action's cost.
pub fn successors(node: &PlanNode, actions: &Vec<Action>) -> (r: Vec<(PlanNode, u64)>)
    requires
        node.state.wf(),
        all_wf(actions@),
    ensures
        forall|k: int|
            0 <= k < r@.len() ==> {
                let (n, c) = #[trigger] r@[k];
                &&& n.state.wf()
                &&& n.via < actions@.len()
                &&& applicable(node.state@, actions@[n.via as int])
                &&& n.state@ == apply_action(node.state@, actions@[n.via as int])
                &&& c == actions@[n.via as int].cost
            },
        forall|i: int|
            0 <= i < actions@.len() && applicable(node.state@, #[trigger] actions@[i]) ==> exists|k: int|
                0 <= k < r@.len() && r@[k].0.via == i,
{
    let mut r: Vec<(PlanNode, u64)> = Vec::new();
    let mut i: usize = 0;
    while i < actions.len()
        invariant
            0 <= i <= actions@.len(),
            node.state.wf(),
            all_wf(actions@),
            forall|k: int|
                0 <= k < r@.len() ==> {
                    let (n, c) = #[trigger] r@[k];
                    &&& n.state.wf()
                    &&& n.via < actions@.len()
                    &&& applicable(node.state@, actions@[n.via as int])
                    &&& n.state@ == apply_action(node.state@, actions@[n.via as int])
                    &&& c == actions@[n.via as int].cost
                },
            forall|j: int|
                0 <= j < i && applicable(node.state@, #[trigger] actions@[j]) ==> exists|k: int|
                    0 <= k < r@.len() && r@[k].0.via == j,
        decreases actions.len() - i,
    {
        let action = &actions[i];
        assert(action.wf());
        if node.state.satisfies(&action.pre_conditions) {
            let state = node.state.apply(&action.post_conditions);
            let ghost before = r@;
            r.push((PlanNode { state, via: i }, action.cost as u64));
            proof {
                assert(r@[r@.len() - 1].0.via == i);
                assert forall|j: int|
                    0 <= j < i && applicable(node.state@, #[trigger] actions@[j]) implies exists|k: int|
                    0 <= k < r@.len() && r@[k].0.via == j by {
                    let k = choose|k: int| 0 <= k < before.len() && before[k].0.via == j;
                    assert(r@[k] == before[k]);
                }
            }
        }
        i = i + 1;
    }
    r
}

/// Relies on pathfinding's `dijkstra`, which settles nodes in order of their
/// cost from `start` and tests `success` on each as it settles it, `start`
/// first: the path it returns starts at `start`, follows edges that
/// `successors` lists, ends at a node that `success` accepts, and costs no
/// more than any other such path; it returns `None` only when no such path
/// exists. Only the action position of each node of the path is kept.
#[verifier::external_body]
fn cheapest_path(start: &PlanNode, goal: &State, actions: &Vec<Action>) -> (r: Option<Vec<usize>>)
    requires
        start.state.wf(),
        goal.wf(),
        all_wf(actions@),
    ensures
        r is Some ==> r->0@.len() >= 1 && reaches(start.state@, goal@, actions@, r->0@.drop_first()),
        r is Some ==> forall|q: Seq<usize>|
            #[trigger] reaches(start.state@, goal@, actions@, q) ==> plan_cost(
                actions@,
                r->0@.drop_first(),
            ) <= plan_cost(actions@, q),
        satisfies(start.state@, goal@) ==> r is Some && r->0@.len() == 1,
        r is None ==> forall|q: Seq<usize>| !#[trigger] reaches(start.state@, goal@, actions@, q),
{
    pathfinding::prelude::dijkstra(
        start,
        |n: &PlanNode| successors(n, actions),
        |n: &PlanNode| n.state.satisfies(goal),
    ).map(|(path, _cost): (Vec<PlanNode>, u64)| path.into_iter().map(|n| n.via).collect())
}

/// A cheapest sequence of actions, as positions in `actions`, that leads
/// from `current` to a state satisfying `goal`; `None` if there is none.
/// When `current` already satisfies `goal` the plan is empty.
pub fn plan(current: &State, goal: &State, actions: &Vec<Action>) -> (r: Option<Vec<usize>>)
    requires
        current.wf(),
        goal.wf(),
        all_wf(actions@),
    ensures
        r is Some ==> reaches(current@, goal@, actions@, r->0@),
        r is Some ==> forall|q: Seq<usize>|
            #[trigger] reaches(current@, goal@, actions@, q) ==> plan_cost(actions@, r->0@)
                <= plan_cost(actions@, q),
        r is None ==> forall|q: Seq<usize>| !#[trigger] reaches(current@, goal@, actions@, q),
        satisfies(current@, goal@) ==> r is Some && r->0@.len() == 0,
{
    let start = PlanNode { state: current.copy(), via: actions.len() };
    match cheapest_path(&start, goal, actions) {
        Some(path) => {
            let mut steps: Vec<usize> = Vec::new();
            let mut i: usize = 1;
            while i < path.len()
                invariant
                    1 <= i <= path@.len(),
                    steps@ == path@.subrange(1, i as int),
                decreases path.len() - i,
            {
                steps.push(path[i]);
                i = i + 1;
            }
            assert(steps@ =~= path@.drop_first());
            Some(steps)
        },
        None => None,
    }
}

} // verus!
