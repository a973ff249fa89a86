use vstd::prelude::*;
use vstd::string::StringExecFns;

verus! {

/// Number of sub-ticks in one tick.
pub const MICRO_TICKS_PER_TICK: u32 = 1_000_000;

/// A logical timestamp: whole ticks plus a fraction in millionths of a tick.
#[derive(PartialEq, Eq, Structural, Copy, Clone, Debug, PartialOrd, Ord, Hash)]
pub struct Time {
    pub ticks: u32,
    pub micro_ticks: u32,
}

/// The largest timestamp that can be represented, as a count of sub-ticks.
pub open spec fn max_total() -> int {
    u32::MAX as int * 1_000_000 + 999_999
}

impl Time {
    /// The timestamp as a single count of sub-ticks.
    pub open spec fn total(self) -> int {
        self.ticks as int * 1_000_000 + self.micro_ticks as int
    }

    /// Sub-ticks lie in `[0, 1_000_000)`.
    pub open spec fn is_normal(self) -> bool {
        self.micro_ticks < MICRO_TICKS_PER_TICK
    }

    /// The normalised timestamp that counts `n` sub-ticks.
    pub open spec fn from_total(n: int) -> Time {
        Time { ticks: (n / 1_000_000) as u32, micro_ticks: (n % 1_000_000) as u32 }
    }

    /// Lexicographic order: ticks first, then sub-ticks.
    pub open spec fn before(self, other: Time) -> bool {
        self.ticks < other.ticks || (self.ticks == other.ticks && self.micro_ticks
            < other.micro_ticks)
    }

    /// The timestamp that counts `n` sub-ticks, or the last representable
    /// one where `n` lies beyond it.
    pub open spec fn saturated(n: int) -> Time {
        if n <= max_total() {
            Time::from_total(n)
        } else {
            Time { ticks: u32::MAX, micro_ticks: 999_999 }
        }
    }

    fn total_exec(self) -> (n: u64)
        ensures
            n == self.total(),
            n <= u32::MAX as int * 1_000_000 + u32::MAX as int,
    {
        assert(self.ticks as int * 1_000_000 <= u32::MAX as int * 1_000_000) by (nonlinear_arith)
            requires
                self.ticks <= u32::MAX,
        ;
        self.ticks as u64 * MICRO_TICKS_PER_TICK as u64 + self.micro_ticks as u64
    }

    fn saturating_from_total(n: u64) -> (t: Time)
        ensures
            t == Time::saturated(n as int),
    {
        if n <= u32::MAX as u64 * MICRO_TICKS_PER_TICK as u64 + 999_999 {
            Time {
                ticks: (n / MICRO_TICKS_PER_TICK as u64) as u32,
                micro_ticks: (n % MICRO_TICKS_PER_TICK as u64) as u32,
            }
        } else {
            Time { ticks: u32::MAX, micro_ticks: MICRO_TICKS_PER_TICK - 1 }
        }
    }

    /// Whether `other` comes strictly before this timestamp.
    pub fn is_after(&self, other: &Time) -> (b: bool)
        ensures
            b == other.before(*self),
    {
        other.ticks < self.ticks || (other.ticks == self.ticks && other.micro_ticks
            < self.micro_ticks)
    }

    /// Builds a timestamp, carrying whole ticks out of `micro_ticks`.
    pub fn new(ticks: u32, micro_ticks: u32) -> (t: Time)
        requires
            ticks as int + micro_ticks as int / 1_000_000 <= u32::MAX,
        ensures
            t.is_normal(),
            t.total() == ticks as int * 1_000_000 + micro_ticks as int,
            t == Time::from_total(ticks as int * 1_000_000 + micro_ticks as int),
    {
        let mut time = Time { ticks, micro_ticks };
        time.normalise();
        time
    }

    /// Carries whole ticks out of the sub-tick count.
    pub fn normalise(&mut self)
        requires
            old(self).ticks as int + old(self).micro_ticks as int / 1_000_000 <= u32::MAX,
        ensures
            final(self).is_normal(),
            final(self).total() == old(self).total(),
            *final(self) == Time::from_total(old(self).total()),
    {
        let carry = self.micro_ticks / MICRO_TICKS_PER_TICK;
        let rest = self.micro_ticks % MICRO_TICKS_PER_TICK;
        proof {
            vstd::arithmetic::div_mod::lemma_fundamental_div_mod(self.micro_ticks as int, 1_000_000);
            let n = self.total();
            let t = self.ticks as int + carry as int;
            assert(n == t * 1_000_000 + rest as int) by (nonlinear_arith)
                requires
                    n == self.ticks as int * 1_000_000 + self.micro_ticks as int,
                    self.micro_ticks as int == 1_000_000 * (carry as int) + rest as int,
                    t == self.ticks as int + carry as int,
            ;
            vstd::arithmetic::div_mod::lemma_fundamental_div_mod_converse(n, 1_000_000, t, rest as int);
        }
        self.ticks = self.ticks + carry;
        self.micro_ticks = rest;
    }

    /// The sum of two timestamps, normalised.
    pub fn plus(self, rhs: Time) -> (t: Time)
        requires
            self.micro_ticks as int + rhs.micro_ticks as int <= u32::MAX,
            self.ticks as int + rhs.ticks as int + (self.micro_ticks as int + rhs.micro_ticks as int)
                / 1_000_000 <= u32::MAX,
        ensures
            t.is_normal(),
            t.total() == self.total() + rhs.total(),
            t == Time::from_total(self.total() + rhs.total()),
    {
        Time::new(self.ticks + rhs.ticks, self.micro_ticks + rhs.micro_ticks)
    }

    /// This timestamp moved on by `n` whole ticks, normalised.
    pub fn plus_ticks(self, n: u32) -> (t: Time)
        requires
            self.ticks as int + n as int + self.micro_ticks as int / 1_000_000 <= u32::MAX,
        ensures
            t.is_normal(),
            t.total() == self.total() + n as int * 1_000_000,
            t == Time::from_total(self.total() + n as int * 1_000_000),
    {
        Time::new(self.ticks + n, self.micro_ticks)
    }
}

/// `t + n` moves `t` on by `n` whole ticks; past the last representable
/// timestamp it stays at that timestamp.
impl std::ops::Add<u32> for Time {
    type Output = Time;

    fn add(self, rhs: u32) -> (t: Time) {
        assert(rhs as int * 1_000_000 <= u32::MAX as int * 1_000_000) by (nonlinear_arith)
            requires
                rhs <= u32::MAX,
        ;
        Time::saturating_from_total(self.total_exec() + rhs as u64 * MICRO_TICKS_PER_TICK as u64)
    }
}

impl vstd::std_specs::ops::AddSpecImpl<u32> for Time {
    open spec fn obeys_add_spec() -> bool {
        true
    }

    open spec fn add_req(self, rhs: u32) -> bool {
        true
    }

    open spec fn add_spec(self, rhs: u32) -> Time {
        Time::saturated(self.total() + rhs as int * 1_000_000)
    }
}

/// `a + b` adds two timestamps; past the last representable timestamp the
/// sum stays at that timestamp.
impl std::ops::Add<Time> for Time {
    type Output = Time;

    fn add(self, rhs: Time) -> (t: Time) {
        Time::saturating_from_total(self.total_exec() + rhs.total_exec())
    }
}

impl vstd::std_specs::ops::AddSpecImpl<Time> for Time {
    open spec fn obeys_add_spec() -> bool {
        true
    }

    open spec fn add_req(self, rhs: Time) -> bool {
        true
    }

    open spec fn add_spec(self, rhs: Time) -> Time {
        Time::saturated(self.total() + rhs.total())
    }
}

impl Default for Time {
    fn default() -> (t: Time)
        ensures
            t.ticks == 0,
            t.micro_ticks == 0,
    {
        Time::new(0, 0)
    }
}

proof fn lemma_from_total_round_trip(n: int)
    requires
        0 <= n <= max_total(),
    ensures
        Time::from_total(n).total() == n,
        Time::from_total(n).is_normal(),
{
    vstd::arithmetic::div_mod::lemma_fundamental_div_mod(n, 1_000_000);
    assert(n / 1_000_000 <= u32::MAX) by {
        vstd::arithmetic::div_mod::lemma_div_is_ordered(n, max_total(), 1_000_000);
        vstd::arithmetic::div_mod::lemma_fundamental_div_mod_converse(max_total(), 1_000_000, u32::MAX as int, 999_999);
    }
    assert(n / 1_000_000 >= 0) by {
        vstd::arithmetic::div_mod::lemma_div_pos_is_pos(n, 1_000_000);
    }
}

/// Adding timestamps, as `+` does, is commutative and associative: the sum
/// counts the sub-ticks of both, normalised, and stops at the last
/// representable timestamp.
pub proof fn lemma_time_addition_commutes_and_associates(a: Time, b: Time, c: Time)
    ensures
        Time::saturated(a.total() + b.total()) == Time::saturated(b.total() + a.total()),
        Time::saturated(Time::saturated(a.total() + b.total()).total() + c.total())
            == Time::saturated(a.total() + Time::saturated(b.total() + c.total()).total()),
{
    assert(a.total() >= 0 && b.total() >= 0 && c.total() >= 0);
    let ab = a.total() + b.total();
    let bc = b.total() + c.total();
    if ab <= max_total() {
        lemma_from_total_round_trip(ab);
    } else {
        assert(Time::saturated(ab).total() == max_total());
    }
    if bc <= max_total() {
        lemma_from_total_round_trip(bc);
    } else {
        assert(Time::saturated(bc).total() == max_total());
    }
}

/// The character of decimal digit `d`.
pub open spec fn digit_char(d: nat) -> char {
    ((d % 10) + 48) as char
}

/// The decimal digits of `n`, without leading zeros.
pub open spec fn decimal(n: nat) -> Seq<char>
    decreases n,
{
    if n < 10 {
        seq![digit_char(n)]
    } else {
        decimal(n / 10).push(digit_char(n % 10))
    }
}

/// The last `width` decimal digits of `n`, zeros in front where needed.
pub open spec fn padded(n: nat, width: nat) -> Seq<char>
    decreases width,
{
    if width == 0 {
        Seq::<char>::empty()
    } else {
        padded(n / 10, (width - 1) as nat).push(digit_char(n % 10))
    }
}

/// Ten to the power `k`.
pub open spec fn pow10(k: nat) -> nat
    decreases k,
{
    if k == 0 {
        1
    } else {
        10 * pow10((k - 1) as nat)
    }
}

impl Time {
    /// The timestamp written as whole ticks and, unless `precision` is
    /// zero, a point and the first `precision` digits of the sub-ticks
    /// (at most six).
    pub open spec fn text(self, precision: nat) -> Seq<char> {
        let p: nat = if precision < 6 {
            precision
        } else {
            6
        };
        if p == 0 {
            decimal(self.ticks as nat)
        } else {
            decimal(self.ticks as nat) + seq!['.'] + padded(
                self.micro_ticks as nat / pow10((6 - p) as nat),
                p,
            )
        }
    }

    /// The timestamp with six digits of sub-ticks.
    pub fn to_string(&self) -> (s: String)
        ensures
            s@ == self.text(6),
    {
        self.to_string_with_precision(6)
    }

    /// The timestamp with `precision` digits of sub-ticks (at most six).
    pub fn to_string_with_precision(&self, precision: usize) -> (s: String)
        ensures
            s@ == self.text(precision as nat),
    {
        let p: u32 = if precision < 6 {
            precision as u32
        } else {
            6
        };
        let mut s = String::new();
        push_decimal(&mut s, self.ticks);
        if p > 0 {
            s.append(".");
            proof {
                reveal_strlit(".");
            }
            let mut d: u32 = 6 - p;
            let mut micro_ticks = self.micro_ticks;
            proof {
                assert(pow10(0) == 1);
                assert(self.micro_ticks as nat / 1 == self.micro_ticks as nat);
            }
            while d > 0
                invariant
                    d <= 6 - p,
                    micro_ticks as nat == self.micro_ticks as nat / pow10(((6 - p) - d) as nat),
                decreases d,
            {
                proof {
                    let k = ((6 - p) - d) as nat;
                    lemma_pow10_positive(k);
                    vstd::arithmetic::div_mod::lemma_div_denominator(
                        self.micro_ticks as int,
                        pow10(k) as int,
                        10,
                    );
                    lemma_pow10_positive(k);
                    assert(pow10(k + 1) == 10 * pow10(k));
                    assert(pow10(k) * 10 == 10 * pow10(k)) by (nonlinear_arith);
                }
                micro_ticks = micro_ticks / 10;
                d = d - 1;
            }
            push_padded(&mut s, micro_ticks, p);
        }
        s
    }
}

proof fn lemma_pow10_positive(k: nat)
    ensures
        pow10(k) > 0,
    decreases k,
{
    if k > 0 {
        lemma_pow10_positive((k - 1) as nat);
    }
}

fn digit_str(d: u32) -> (r: &'static str)
    requires
        d < 10,
    ensures
        r@ == seq![digit_char(d as nat)],
{
    proof {
        reveal_strlit("0");
        reveal_strlit("1");
        reveal_strlit("2");
        reveal_strlit("3");
        reveal_strlit("4");
        reveal_strlit("5");
        reveal_strlit("6");
        reveal_strlit("7");
        reveal_strlit("8");
        reveal_strlit("9");
    }
    if d == 0 {
        "0"
    } else if d == 1 {
        "1"
    } else if d == 2 {
        "2"
    } else if d == 3 {
        "3"
    } else if d == 4 {
        "4"
    } else if d == 5 {
        "5"
    } else if d == 6 {
        "6"
    } else if d == 7 {
        "7"
    } else if d == 8 {
        "8"
    } else {
        "9"
    }
}

fn push_decimal(s: &mut String, n: u32)
    ensures
        final(s)@ == old(s)@ + decimal(n as nat),
    decreases n,
{
    if n >= 10 {
        push_decimal(s, n / 10);
    }
    s.append(digit_str(n % 10));
    proof {
        if n >= 10 {
            assert(decimal(n as nat) == decimal((n / 10) as nat).push(digit_char((n % 10) as nat)));
        }
        assert(digit_char((n % 10) as nat) == digit_char(n as nat));
    }
    assert(s@ =~= old(s)@ + decimal(n as nat));
}

fn push_padded(s: &mut String, n: u32, width: u32)
    ensures
        final(s)@ == old(s)@ + padded(n as nat, width as nat),
    decreases width,
{
    if width > 0 {
        push_padded(s, n / 10, width - 1);
        s.append(digit_str(n % 10));
        assert(digit_char((n % 10) as nat) == digit_char((n % 10) as nat));
        assert(s@ =~= old(s)@ + padded(n as nat, width as nat));
    } else {
        assert(s@ =~= old(s)@ + padded(n as nat, width as nat));
    }
}

/// A scheduled item: when it fires, the order in which it was scheduled, and
/// what it carries.
pub struct Event<T> {
    pub time: Time,
    pub generation: u32,
    pub item: T,
}

/// `a` fires before `b`: earlier time first, and at equal times the one
/// scheduled first.
pub open spec fn fires_before<T>(a: Event<T>, b: Event<T>) -> bool {
    a.time.before(b.time) || (a.time == b.time && a.generation < b.generation)
}

/// A queue of scheduled items that hands them out earliest first, and in the
/// order they were scheduled among items at the same time.
pub struct EventQueue<T> {
    generation: u32,
    queue: Vec<Event<T>>,
    added: Ghost<Seq<(Time, T)>>,
    taken: Ghost<Set<nat>>,
}

impl<T> EventQueue<T> {
    /// The pending events, in the order they will fire.
    pub closed spec fn pending(&self) -> Seq<Event<T>> {
        self.queue@
    }

    /// How many items have been scheduled so far.
    pub closed spec fn scheduled(&self) -> nat {
        self.generation as nat
    }

    /// Every item scheduled so far, with its time, in the order scheduled:
    /// the item numbered `g` stands at `g - 1`.
    pub closed spec fn scheduled_items(&self) -> Seq<(Time, T)> {
        self.added@
    }

    /// The numbers of the items already handed out.
    pub closed spec fn taken(&self) -> Set<nat> {
        self.taken@
    }

    /// The item numbered `g` is pending.
    pub closed spec fn waiting(&self, g: nat) -> bool {
        exists|i: int| 0 <= i < self.queue@.len() && self.queue@[i].generation == g
    }

    /// Pending events are held in firing order, each numbered by when it was
    /// scheduled; an item scheduled so far is pending exactly when it has not
    /// been handed out.
    pub closed spec fn wf(&self) -> bool {
        &&& forall|i: int, j: int|
            0 <= i < j < self.queue@.len() ==> fires_before(
                #[trigger] self.queue@[i],
                #[trigger] self.queue@[j],
            )
        &&& forall|i: int|
            0 <= i < self.queue@.len() ==> 1 <= #[trigger] self.queue@[i].generation
                <= self.generation && self.added@[self.queue@[i].generation - 1] == (
                self.queue@[i].time,
                self.queue@[i].item,
            )
        &&& self.added@.len() == self.generation
        &&& forall|g: nat|
            1 <= g <= self.generation ==> (#[trigger] self.waiting(g) <==> !self.taken@.contains(g))
        &&& forall|g: nat| #[trigger] self.taken@.contains(g) ==> 1 <= g <= self.generation
    }

    /// An empty queue.
    pub fn new() -> (q: EventQueue<T>)
        ensures
            q.wf(),
            q.pending() == Seq::<Event<T>>::empty(),
            q.scheduled() == 0,
            q.scheduled_items() == Seq::<(Time, T)>::empty(),
            q.taken() == Set::<nat>::empty(),
    {
        EventQueue {
            generation: 0,
            queue: Vec::new(),
            added: Ghost(Seq::empty()),
            taken: Ghost(Set::empty()),
        }
    }

    /// The number of pending events.
    pub fn len(&self) -> (n: usize)
        ensures
            n == self.pending().len(),
    {
        self.queue.len()
    }

    /// Schedules `item` at `when`, after every item already scheduled at the
    /// same time.
    pub fn add(&mut self, when: Time, item: T)
        requires
            old(self).wf(),
            old(self).scheduled() < u32::MAX,
        ensures
            final(self).wf(),
            final(self).scheduled() == old(self).scheduled() + 1,
            final(self).pending().len() == old(self).pending().len() + 1,
            final(self).scheduled_items() == old(self).scheduled_items().push((when, item)),
            final(self).taken() == old(self).taken(),
            forall|i: int|
                0 <= i < old(self).pending().len() ==> (#[trigger] old(self).pending()[i]).generation
                    < final(self).scheduled(),
            exists|p: int|
                0 <= p <= old(self).pending().len() && final(self).pending() == #[trigger] old(
                    self,
                ).pending().insert(
                    p,
                    Event { time: when, generation: final(self).scheduled() as u32, item },
                ),
    {
        self.generation = self.generation + 1;
        let generation = self.generation;
        let ghost old_added = self.added@;
        proof {
            self.added = Ghost(self.added@.push((when, item)));
        }
        let mut i: usize = 0;
        while i < self.queue.len() && !self.queue[i].time.is_after(&when)
            invariant
                0 <= i <= self.queue.len(),
                forall|j: int| 0 <= j < i ==> !when.before(#[trigger] self.queue@[j].time),
            decreases self.queue.len() - i,
        {
            i = i + 1;
        }
        let ghost before = self.queue@;
        self.queue.insert(i, Event { time: when, generation, item });
        proof {
            assert(self.queue@ == before.insert(i as int, Event { time: when, generation, item }));
            assert(self.pending() == old(self).pending().insert(
                i as int,
                Event { time: when, generation: self.scheduled() as u32, item },
            ));
            assert forall|a: int, b: int|
                0 <= a < b < self.queue@.len() implies fires_before(
                #[trigger] self.queue@[a],
                #[trigger] self.queue@[b],
            ) by {
                if b < i {
                    assert(self.queue@[a] == before[a] && self.queue@[b] == before[b]);
                } else if a > i {
                    assert(self.queue@[a] == before[a - 1] && self.queue@[b] == before[b - 1]);
                } else if a == i {
                    assert(self.queue@[b] == before[b - 1]);
                } else {
                    assert(self.queue@[a] == before[a]);
                    if b > i {
                        assert(self.queue@[b] == before[b - 1]);
                    }
                }
            }
            assert forall|k: int| 0 <= k < self.queue@.len() implies 1 <= #[trigger] self.queue@[k].generation
                <= self.generation && self.added@[self.queue@[k].generation - 1] == (
                self.queue@[k].time,
                self.queue@[k].item,
            ) by {
                if k < i {
                    assert(self.queue@[k] == before[k]);
                } else if k > i {
                    assert(self.queue@[k] == before[k - 1]);
                }
            }
            assert forall|g: nat| 1 <= g <= self.generation implies (#[trigger] self.waiting(g)
                <==> !self.taken@.contains(g)) by {
                if g == self.generation {
                    assert(self.queue@[i as int].generation == g);
                } else {
                    if old(self).waiting(g) {
                        let k = choose|k: int| 0 <= k < before.len() && before[k].generation == g;
                        if k < i {
                            assert(self.queue@[k] == before[k]);
                        } else {
                            assert(self.queue@[k + 1] == before[k]);
                        }
                    }
                    if self.waiting(g) {
                        let k = choose|k: int| 0 <= k < self.queue@.len() && self.queue@[k].generation == g;
                        if k < i {
                            assert(self.queue@[k] == before[k]);
                        } else if k > i {
                            assert(self.queue@[k] == before[k - 1]);
                        }
                        assert(old(self).waiting(g));
                    }
                }
            }
        }
    }

    /// Whether another item can be numbered and scheduled.
    pub fn can_add(&self) -> (b: bool)
        ensures
            b == (self.scheduled() < u32::MAX),
    {
        self.generation < u32::MAX
    }

    /// Removes and returns the event that fires first.
    pub fn next(&mut self) -> (r: Option<(Time, T)>)
        requires
            old(self).wf(),
        ensures
            final(self).wf(),
            final(self).scheduled() == old(self).scheduled(),
            final(self).scheduled_items() == old(self).scheduled_items(),
            old(self).pending().len() == 0 ==> r is None && *final(self) == *old(self),
            old(self).pending().len() > 0 ==> final(self).taken() == old(self).taken().insert(
                old(self).pending()[0].generation as nat,
            ),
            old(self).pending().len() > 0 ==> r == Some(
                (old(self).pending()[0].time, old(self).pending()[0].item),
            ) && final(self).pending() == old(self).pending().drop_first(),
    {
        if self.queue.len() == 0 {
            None
        } else {
            let ghost before = self.queue@;
            let event = self.queue.remove(0);
            proof {
                let g0 = before[0].generation as nat;
                self.taken = Ghost(self.taken@.insert(g0));
                assert forall|k: int| 0 <= k < self.queue@.len() implies self.queue@[k].generation != g0 by {
                    assert(self.queue@[k] == before[k + 1]);
                    assert(fires_before(before[0], before[k + 1]));
                }
                assert forall|g: nat| 1 <= g <= self.generation implies (#[trigger] self.waiting(g)
                    <==> !self.taken@.contains(g)) by {
                    if old(self).waiting(g) && g != g0 {
                        let k = choose|k: int| 0 <= k < before.len() && before[k].generation == g;
                        assert(k != 0);
                        assert(self.queue@[k - 1] == before[k]);
                    }
                    if self.waiting(g) {
                        let k = choose|k: int| 0 <= k < self.queue@.len() && self.queue@[k].generation == g;
                        assert(self.queue@[k] == before[k + 1]);
                        assert(old(self).waiting(g));
                    }
                }
                assert forall|i: int, j: int|
                    0 <= i < j < self.queue@.len() implies fires_before(
                    #[trigger] self.queue@[i],
                    #[trigger] self.queue@[j],
                ) by {
                    assert(self.queue@[i] == before[i + 1] && self.queue@[j] == before[j + 1]);
                }
                assert forall|k: int| 0 <= k < self.queue@.len() implies 1 <= #[trigger] self.queue@[k].generation
                    <= self.generation && self.added@[self.queue@[k].generation - 1] == (
                    self.queue@[k].time,
                    self.queue@[k].item,
                ) by {
                    assert(self.queue@[k] == before[k + 1]);
                }
            }
            Some((event.time, event.item))
        }
    }

    /// The event that fires first, left in place.
    pub fn peek(&self) -> (r: Option<(&Time, &T)>)
        requires
            self.wf(),
        ensures
            self.pending().len() == 0 ==> r is None,
            self.pending().len() > 0 ==> r == Some(
                (&self.pending()[0].time, &self.pending()[0].item),
            ),
    {
        if self.queue.len() == 0 {
            None
        } else {
            let event = &self.queue[0];
            Some((&event.time, &event.item))
        }
    }

    /// Whether any event is pending.
    pub fn has_next(&self) -> (b: bool)
        ensures
            b == (self.pending().len() > 0),
    {
        self.queue.len() > 0
    }
}

/// Items are handed out in order: of two scheduled items not yet handed
/// out, the one with the earlier time, or at equal times the one scheduled
/// first, stands ahead in the queue, and `next` always hands out the head.
/// So after scheduling, draining the queue yields the items in non-decreasing
/// time order, and items at equal times in the order they were scheduled.
pub proof fn lemma_handed_out_in_order<T>(q: &EventQueue<T>, k1: int, k2: int)
    requires
        q.wf(),
        0 <= k1 < q.scheduled(),
        0 <= k2 < q.scheduled(),
        !q.taken().contains((k1 + 1) as nat),
        !q.taken().contains((k2 + 1) as nat),
        q.scheduled_items()[k1].0.before(q.scheduled_items()[k2].0) || (q.scheduled_items()[k1].0
            == q.scheduled_items()[k2].0 && k1 < k2),
    ensures
        exists|i: int, j: int|
            0 <= i < j < q.pending().len() && #[trigger] q.pending()[i].generation == k1 + 1
                && #[trigger] q.pending()[j].generation == k2 + 1 && (q.pending()[i].time,
            q.pending()[i].item) == q.scheduled_items()[k1] && (q.pending()[j].time, q.pending()[j].item)
                == q.scheduled_items()[k2],
{
    assert(q.waiting((k1 + 1) as nat));
    assert(q.waiting((k2 + 1) as nat));
    let i = choose|i: int| 0 <= i < q.queue@.len() && q.queue@[i].generation == k1 + 1;
    let j = choose|j: int| 0 <= j < q.queue@.len() && q.queue@[j].generation == k2 + 1;
    assert(q.added@[q.queue@[i].generation - 1] == (q.queue@[i].time, q.queue@[i].item));
    assert(q.added@[q.queue@[j].generation - 1] == (q.queue@[j].time, q.queue@[j].item));
    if j < i {
        assert(fires_before(q.queue@[j], q.queue@[i]));
    }
    assert(i != j);
    assert(i < j);
    assert(q.scheduled_items()[k1] == q.added@[q.queue@[i].generation - 1]);
    assert(q.scheduled_items()[k2] == q.added@[q.queue@[j].generation - 1]);
    assert(0 <= i < j < q.pending().len() && q.pending()[i].generation == k1 + 1
        && q.pending()[j].generation == k2 + 1);
}

/// Every scheduled item not yet handed out is pending, with its time.
pub proof fn lemma_untaken_items_pending<T>(q: &EventQueue<T>, k: int)
    requires
        q.wf(),
        0 <= k < q.scheduled(),
        !q.taken().contains((k + 1) as nat),
    ensures
        exists|i: int|
            0 <= i < q.pending().len() && #[trigger] q.pending()[i].generation == k + 1 && (
            q.pending()[i].time,
            q.pending()[i].item,
        ) == q.scheduled_items()[k],
{
    assert(q.waiting((k + 1) as nat));
    let i = choose|i: int| 0 <= i < q.queue@.len() && q.queue@[i].generation == k + 1;
    assert(q.added@[q.queue@[i].generation - 1] == (q.queue@[i].time, q.queue@[i].item));
    assert(q.scheduled_items()[k] == q.added@[q.queue@[i].generation - 1]);
    assert(q.pending()[i].generation == k + 1);
}

/// No more than `u32::MAX` items are ever numbered.
pub proof fn lemma_scheduled_bounded<T>(q: &EventQueue<T>)
    ensures
        q.scheduled() <= u32::MAX,
{
}

/// Pending events fire in order of time, and at equal times in the order in
/// which they were scheduled: no two are ever reordered.
pub proof fn lemma_pending_fire_in_order<T>(q: &EventQueue<T>, i: int, j: int)
    requires
        q.wf(),
        0 <= i < j < q.pending().len(),
    ensures
        !q.pending()[j].time.before(q.pending()[i].time),
        q.pending()[i].time == q.pending()[j].time ==> q.pending()[i].generation
            < q.pending()[j].generation,
        q.pending()[j].generation <= q.scheduled(),
{
    assert(fires_before(q.pending()[i], q.pending()[j]));
}

} // verus!
