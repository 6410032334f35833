//! The review cycle and the schedule engine that maps dates onto it.
use vstd::prelude::*;
use crate::fact::{Fact, FIRST_LEVEL};
use vstd::arithmetic::div_mod::{
    lemma_div_multiples_vanish_fancy, lemma_fundamental_div_mod, lemma_mod_multiples_vanish,
    lemma_small_mod,
};
use crate::timestamp::{Timestamp, whole_days_between, SECONDS_PER_DAY};

verus! {

/// The number of days in the Leitner cycle.
pub const CYCLE_DAYS: u8 = 64;

/// The highest level that the Leitner cycle reviews.
pub const LEITNER_LEVELS: u8 = 7;

/// The Leitner review cycle: entry `i` lists, from highest to lowest, the
/// levels due on day `i` of the cycle. Level 1 is due every day, level 2 about
/// every other day, and so on up to level 7, due once per cycle.
pub open spec fn leitner_cycle() -> Seq<Seq<u8>> {
    seq![
        seq![2u8, 1u8],
        seq![3u8, 1u8],
        seq![2u8, 1u8],
        seq![4u8, 1u8],
        seq![2u8, 1u8],
        seq![3u8, 1u8],
        seq![2u8, 1u8],
        seq![1u8],
        seq![2u8, 1u8],
        seq![3u8, 1u8],
        seq![2u8, 1u8],
        seq![5u8, 1u8],
        seq![4u8, 2u8, 1u8],
        seq![3u8, 1u8],
        seq![2u8, 1u8],
        seq![1u8],
        seq![2u8, 1u8],
        seq![3u8, 1u8],
        seq![2u8, 1u8],
        seq![4u8, 1u8],
        seq![2u8, 1u8],
        seq![3u8, 1u8],
        seq![2u8, 1u8],
        seq![6u8, 1u8],
        seq![2u8, 1u8],
        seq![3u8, 1u8],
        seq![2u8, 1u8],
        seq![5u8, 1u8],
        seq![4u8, 2u8, 1u8],
        seq![3u8, 1u8],
        seq![2u8, 1u8],
        seq![1u8],
        seq![2u8, 1u8],
        seq![3u8, 1u8],
        seq![2u8, 1u8],
        seq![4u8, 1u8],
        seq![2u8, 1u8],
        seq![3u8, 1u8],
        seq![2u8, 1u8],
        seq![1u8],
        seq![2u8, 1u8],
        seq![3u8, 1u8],
        seq![2u8, 1u8],
        seq![5u8, 1u8],
        seq![4u8, 2u8, 1u8],
        seq![3u8, 1u8],
        seq![2u8, 1u8],
        seq![1u8],
        seq![2u8, 1u8],
        seq![3u8, 1u8],
        seq![2u8, 1u8],
        seq![4u8, 1u8],
        seq![2u8, 1u8],
        seq![3u8, 1u8],
        seq![2u8, 1u8],
        seq![7u8, 1u8],
        seq![2u8, 1u8],
        seq![3u8, 1u8],
        seq![6u8, 2u8, 1u8],
        seq![5u8, 1u8],
        seq![4u8, 2u8, 1u8],
        seq![3u8, 1u8],
        seq![2u8, 1u8],
        seq![1u8],
    ]
}

/// The day of a cycle of `len` days on which `query` falls, for a cycle that
/// began at `start` (both in seconds). A query before the start counts
/// backwards, so the result is always in `0 .. len`.
pub open spec fn day_of_cycle(start: int, query: int, len: int) -> int {
    whole_days_between(start, query) % len
}

/// The cycle as a table of vectors.
fn leitner_table() -> (r: Vec<Vec<u8>>)
    ensures
        r@.len() == leitner_cycle().len(),
        forall|i: int| 0 <= i < r@.len() ==> #[trigger] r@[i]@ == leitner_cycle()[i],
{
    let r = vec![
        vec![2u8, 1u8],
        vec![3u8, 1u8],
        vec![2u8, 1u8],
        vec![4u8, 1u8],
        vec![2u8, 1u8],
        vec![3u8, 1u8],
        vec![2u8, 1u8],
        vec![1u8],
        vec![2u8, 1u8],
        vec![3u8, 1u8],
        vec![2u8, 1u8],
        vec![5u8, 1u8],
        vec![4u8, 2u8, 1u8],
        vec![3u8, 1u8],
        vec![2u8, 1u8],
        vec![1u8],
        vec![2u8, 1u8],
        vec![3u8, 1u8],
        vec![2u8, 1u8],
        vec![4u8, 1u8],
        vec![2u8, 1u8],
        vec![3u8, 1u8],
        vec![2u8, 1u8],
        vec![6u8, 1u8],
        vec![2u8, 1u8],
        vec![3u8, 1u8],
        vec![2u8, 1u8],
        vec![5u8, 1u8],
        vec![4u8, 2u8, 1u8],
        vec![3u8, 1u8],
        vec![2u8, 1u8],
        vec![1u8],
        vec![2u8, 1u8],
        vec![3u8, 1u8],
        vec![2u8, 1u8],
        vec![4u8, 1u8],
        vec![2u8, 1u8],
        vec![3u8, 1u8],
        vec![2u8, 1u8],
        vec![1u8],
        vec![2u8, 1u8],
        vec![3u8, 1u8],
        vec![2u8, 1u8],
        vec![5u8, 1u8],
        vec![4u8, 2u8, 1u8],
        vec![3u8, 1u8],
        vec![2u8, 1u8],
        vec![1u8],
        vec![2u8, 1u8],
        vec![3u8, 1u8],
        vec![2u8, 1u8],
        vec![4u8, 1u8],
        vec![2u8, 1u8],
        vec![3u8, 1u8],
        vec![2u8, 1u8],
        vec![7u8, 1u8],
        vec![2u8, 1u8],
        vec![3u8, 1u8],
        vec![6u8, 2u8, 1u8],
        vec![5u8, 1u8],
        vec![4u8, 2u8, 1u8],
        vec![3u8, 1u8],
        vec![2u8, 1u8],
        vec![1u8],
    ];
    assert(forall|i: int| 0 <= i < r@.len() ==> #[trigger] r@[i]@ =~= leitner_cycle()[i]);
    r
}

/// The position of day `days` (counted from the start, possibly negative) in
/// a cycle of `len` days.
pub fn cycle_position(days: i64, len: u8) -> (r: u8)
    requires
        len > 0,
    ensures
        r as int == days as int % len as int,
        r < len,
{
    let n: u64 = len as u64;
    if days >= 0 {
        (days as u64 % n) as u8
    } else {
        let back: u64 = (0i128 - days as i128) as u64;
        let rem: u64 = back % n;
        proof {
            lemma_negative_mod(back as int, n as int);
        }
        if rem == 0 {
            0
        } else {
            (n - rem) as u8
        }
    }
}

proof fn lemma_negative_mod(back: int, n: int)
    requires
        back > 0,
        n > 0,
    ensures
        (-back) % n == (if back % n == 0 { 0 } else { n - back % n }),
{
    let q = back / n;
    let r = back % n;
    lemma_fundamental_div_mod(back, n);
    if r == 0 {
        assert(-back == n * (-q) + 0) by (nonlinear_arith)
            requires back == n * q + r, r == 0;
        lemma_mod_multiples_vanish(-q, 0, n);
        lemma_small_mod(0, n as nat);
    } else {
        assert(-back == n * (-q - 1) + (n - r)) by (nonlinear_arith)
            requires back == n * q + r;
        lemma_mod_multiples_vanish(-q - 1, n - r, n);
        lemma_small_mod((n - r) as nat, n as nat);
    }
}

/// A review schedule: a cycle of days, each naming the levels due that day,
/// anchored at a start date.
pub trait SpacedSchedule {
    /// Whether the schedule is usable: its cycle has at least one day.
    spec fn spec_wf(&self) -> bool;

    /// The date on which day 0 of the cycle falls.
    spec fn spec_start_date(&self) -> Timestamp;

    /// The number of days in the cycle.
    spec fn spec_len(&self) -> nat;

    /// The highest level the schedule reviews.
    spec fn spec_num_levels(&self) -> nat;

    /// The levels due on day `day` of the cycle (`0 <= day < spec_len()`).
    spec fn spec_levels_for_day(&self, day: int) -> Seq<u8>;

    fn get_start_date(&self) -> (r: Timestamp)
        ensures
            r == self.spec_start_date(),
    ;

    /// The day of the cycle on which the date `day` falls.
    fn get_day_of_schedule(&self, day: Timestamp) -> (r: u8)
        requires
            self.spec_wf(),
        ensures
            r as int == day_of_cycle(
                self.spec_start_date().secs as int,
                day.secs as int,
                self.spec_len() as int,
            ),
            (r as nat) < self.spec_len(),
    {
        let start = self.get_start_date();
        let days = start.days_until(&day);
        cycle_position(days, self.len())
    }

    /// The number of days in this schedule.
    fn len(&self) -> (r: u8)
        requires
            self.spec_wf(),
        ensures
            r as nat == self.spec_len(),
            r > 0,
    ;

    /// How many levels are used in this schedule.
    fn num_levels(&self) -> (r: u8)
        ensures
            r as nat == self.spec_num_levels(),
    ;

    /// The levels due on cycle day `day % len()`, from highest to lowest.
    fn get_levels_for_day(&self, day: u8) -> (r: Vec<u8>)
        requires
            self.spec_wf(),
        ensures
            r@ == self.spec_levels_for_day(day as int % self.spec_len() as int),
    ;

    /// The levels due on the date `day`, from highest to lowest.
    fn get_levels_for_date(&self, day: Timestamp) -> (r: Vec<u8>)
        requires
            self.spec_wf(),
        ensures
            r@ == self.spec_levels_for_day(
                day_of_cycle(
                    self.spec_start_date().secs as int,
                    day.secs as int,
                    self.spec_len() as int,
                ),
            ),
    {
        let d = self.get_day_of_schedule(day);
        let r = self.get_levels_for_day(d);
        proof {
            lemma_small_mod(d as nat, self.spec_len());
        }
        r
    }
}

/// The levels that the Leitner cycle makes due on the date `query` (seconds),
/// for a cycle started at `start` (seconds).
pub open spec fn leitner_levels_due(start: int, query: int) -> Seq<u8> {
    leitner_cycle()[day_of_cycle(start, query, CYCLE_DAYS as int)]
}

/// The classic Leitner schedule: a 64-day cycle over seven levels.
pub struct LeitnerSchedule {
    start_date: Timestamp,
    schedule: Vec<Vec<u8>>,
}

impl LeitnerSchedule {
    /// A schedule whose cycle starts now.
    pub fn new() -> (r: LeitnerSchedule)
        ensures
            r.spec_wf(),
            r.spec_start_date().secs >= 0,
    {
        LeitnerSchedule::starting_at(Timestamp::now())
    }

    /// A schedule whose cycle starts at `start_date`.
    pub fn starting_at(start_date: Timestamp) -> (r: LeitnerSchedule)
        ensures
            r.spec_wf(),
            r.spec_start_date() == start_date,
    {
        LeitnerSchedule { start_date, schedule: leitner_table() }
    }

    /// Re-anchors the cycle at `start_date`; the table is unchanged.
    pub fn set_start_date(&mut self, start_date: Timestamp)
        requires
            old(self).spec_wf(),
        ensures
            final(self).spec_wf(),
            final(self).spec_start_date() == start_date,
    {
        self.start_date = start_date;
    }
}

impl SpacedSchedule for LeitnerSchedule {
    /// The table is the Leitner cycle, entry for entry.
    closed spec fn spec_wf(&self) -> bool {
        &&& self.schedule@.len() == leitner_cycle().len()
        &&& forall|i: int|
            0 <= i < self.schedule@.len() ==> #[trigger] self.schedule@[i]@ == leitner_cycle()[i]
    }

    closed spec fn spec_start_date(&self) -> Timestamp {
        self.start_date
    }

    open spec fn spec_len(&self) -> nat {
        CYCLE_DAYS as nat
    }

    open spec fn spec_num_levels(&self) -> nat {
        LEITNER_LEVELS as nat
    }

    open spec fn spec_levels_for_day(&self, day: int) -> Seq<u8> {
        leitner_cycle()[day]
    }

    fn get_start_date(&self) -> (r: Timestamp) {
        self.start_date
    }

    fn len(&self) -> (r: u8) {
        self.schedule.len() as u8
    }

    fn num_levels(&self) -> (r: u8) {
        LEITNER_LEVELS
    }

    fn get_levels_for_day(&self, day: u8) -> (r: Vec<u8>) {
        let slot = self.schedule[(day % self.len()) as usize].clone();
        assert(slot@ =~= leitner_cycle()[day as int % CYCLE_DAYS as int]);
        slot
    }
}

/// Whether `level` is among `levels`.
pub fn levels_include(levels: &Vec<u8>, level: u8) -> (r: bool)
    ensures
        r == levels@.contains(level),
{
    let mut i: usize = 0;
    while i < levels.len()
        invariant
            i <= levels@.len(),
            forall|j: int| 0 <= j < i ==> levels@[j] != level,
        decreases levels@.len() - i,
    {
        if levels[i] == level {
            return true;
        }
        i = i + 1;
    }
    false
}

/// The facts of `facts` whose level is among `levels`, in their order.
pub open spec fn facts_due(facts: Seq<Fact>, levels: Seq<u8>) -> Seq<Fact>
    decreases facts.len(),
{
    if facts.len() == 0 {
        Seq::empty()
    } else {
        let rest = facts_due(facts.drop_last(), levels);
        if levels.contains(facts.last()@.level) {
            rest.push(facts.last())
        } else {
            rest
        }
    }
}

/// The facts due for review on `today`: those whose level the schedule makes
/// due on that date, in the order of `facts`.
pub fn due_facts<S: SpacedSchedule>(schedule: &S, facts: &Vec<Fact>, today: Timestamp) -> (r: Vec<
    Fact,
>)
    requires
        schedule.spec_wf(),
    ensures
        r@ == facts_due(
            facts@,
            schedule.spec_levels_for_day(
                day_of_cycle(
                    schedule.spec_start_date().secs as int,
                    today.secs as int,
                    schedule.spec_len() as int,
                ),
            ),
        ),
{
    let levels = schedule.get_levels_for_date(today);
    let mut due: Vec<Fact> = Vec::new();
    let mut i: usize = 0;
    while i < facts.len()
        invariant
            i <= facts@.len(),
            due@ == facts_due(facts@.take(i as int), levels@),
        decreases facts@.len() - i,
    {
        let fact = &facts[i];
        assert(facts@.take(i + 1).drop_last() =~= facts@.take(i as int));
        if levels_include(&levels, fact.level()) {
            due.push(fact.clone());
        }
        i = i + 1;
    }
    assert(facts@.take(facts@.len() as int) =~= facts@);
    due
}

/// Every day of the Leitner cycle reviews at least one level, the last one
/// listed being the first level: any day index, reduced modulo the cycle,
/// lands on such a day.
pub proof fn lemma_every_day_reviews_first_level(day: int)
    ensures
        leitner_cycle().len() == CYCLE_DAYS,
        leitner_cycle()[day % CYCLE_DAYS as int].len() > 0,
        leitner_cycle()[day % CYCLE_DAYS as int].last() == FIRST_LEVEL,
        leitner_cycle()[day % CYCLE_DAYS as int].contains(FIRST_LEVEL),
{
    let t = leitner_cycle();
    assert(forall|i: int| 0 <= i < 64 ==> #[trigger] t[i].len() > 0 && t[i].last() == 1u8);
    let i = day % 64;
    assert(t[i][t[i].len() - 1] == FIRST_LEVEL);
}

/// The day of the cycle is periodic: moving the query date forward by any
/// whole number of cycles (`k * len` days) lands on the same day of the cycle.
pub proof fn lemma_day_of_cycle_periodic(start: int, query: int, len: int, k: int)
    requires
        len > 0,
        k >= 0,
        query >= start,
    ensures
        day_of_cycle(start, query + k * len * (SECONDS_PER_DAY as int), len) == day_of_cycle(
            start,
            query,
            len,
        ),
{
    let day = SECONDS_PER_DAY as int;
    let diff = query - start;
    let q = diff / day;
    let r = diff % day;
    lemma_fundamental_div_mod(diff, day);
    assert(query + k * len * day - start == day * (q + k * len) + r) by (nonlinear_arith)
        requires diff == query - start, diff == day * q + r;
    lemma_div_multiples_vanish_fancy(q + k * len, r, day);
    assert(whole_days_between(start, query + k * len * day) == q + k * len);
    assert(q + k * len == len * k + q) by (nonlinear_arith);
    lemma_mod_multiples_vanish(k, q, len);
}

/// The levels a Leitner schedule gives for a date depend on its start date
/// and that date alone: asking again, or asking another schedule with the same
/// start, gives the same levels.
pub proof fn lemma_levels_for_date_are_determined(
    a: &LeitnerSchedule,
    b: &LeitnerSchedule,
    day: Timestamp,
)
    requires
        a.spec_wf(),
        b.spec_wf(),
        a.spec_start_date() == b.spec_start_date(),
    ensures
        a.spec_levels_for_day(
            day_of_cycle(a.spec_start_date().secs as int, day.secs as int, a.spec_len() as int),
        ) == b.spec_levels_for_day(
            day_of_cycle(b.spec_start_date().secs as int, day.secs as int, b.spec_len() as int),
        ),
        a.spec_levels_for_day(
            day_of_cycle(a.spec_start_date().secs as int, day.secs as int, a.spec_len() as int),
        ) == leitner_levels_due(a.spec_start_date().secs as int, day.secs as int),
{
}

/// A fact in the first box, as every fresh fact is, is due on every date of
/// a Leitner schedule.
pub proof fn lemma_first_level_always_due(schedule: &LeitnerSchedule, day: Timestamp, fact: Fact)
    requires
        schedule.spec_wf(),
        fact@.level == FIRST_LEVEL,
    ensures
        facts_due(
            seq![fact],
            schedule.spec_levels_for_day(
                day_of_cycle(
                    schedule.spec_start_date().secs as int,
                    day.secs as int,
                    schedule.spec_len() as int,
                ),
            ),
        ) == seq![fact],
{
    let d = whole_days_between(schedule.spec_start_date().secs as int, day.secs as int);
    lemma_every_day_reviews_first_level(d);
    let levels = leitner_cycle()[d % CYCLE_DAYS as int];
    let one = seq![fact];
    assert(one.drop_last() =~= Seq::<Fact>::empty());
    assert(facts_due(one.drop_last(), levels) == Seq::<Fact>::empty());
    assert(one.last()@.level == FIRST_LEVEL);
    assert(Seq::<Fact>::empty().push(fact) =~= one);
}

} // verus!
