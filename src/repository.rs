//! Where facts are kept.
use vstd::prelude::*;
use crate::fact::Fact;
use crate::timestamp::Timestamp;

verus! {

/// A store of facts, in the order they were added.
pub trait FactRepository {
    /// When the store was created.
    spec fn spec_created_date(&self) -> Timestamp;

    /// The stored facts, oldest first.
    spec fn spec_facts(&self) -> Seq<Fact>;

    fn get_created_date(&self) -> (r: Timestamp)
        ensures
            r == self.spec_created_date(),
    ;

    /// Appends `fact` to the store.
    fn add_fact(&mut self, fact: Fact)
        ensures
            final(self).spec_facts() == old(self).spec_facts().push(fact),
            final(self).spec_created_date() == old(self).spec_created_date(),
    ;

    fn get_fact_count(&self) -> (r: usize)
        ensures
            r == self.spec_facts().len(),
    ;

    /// A copy of every stored fact, oldest first.
    fn get_all_facts(&self) -> (r: Vec<Fact>)
        ensures
            r@ == self.spec_facts(),
    ;
}

/// A fact store held in memory.
#[derive(Debug)]
pub struct InMemoryFactRepository {
    created_at: Timestamp,
    pub facts: Vec<Fact>,
}

impl InMemoryFactRepository {
    /// An empty store, created now.
    pub fn new() -> (r: InMemoryFactRepository)
        ensures
            r.spec_facts() == Seq::<Fact>::empty(),
            r.spec_created_date().secs >= 0,
    {
        InMemoryFactRepository { created_at: Timestamp::now(), facts: Vec::new() }
    }

    /// A store created at `created_at` that holds `facts` (as when a saved
    /// store is loaded again).
    pub fn with_created_date(created_at: Timestamp, facts: Vec<Fact>) -> (r:
        InMemoryFactRepository)
        ensures
            r.spec_created_date() == created_at,
            r.spec_facts() == facts@,
    {
        InMemoryFactRepository { created_at, facts }
    }
}

impl FactRepository for InMemoryFactRepository {
    closed spec fn spec_created_date(&self) -> Timestamp {
        self.created_at
    }

    closed spec fn spec_facts(&self) -> Seq<Fact> {
        self.facts@
    }

    fn get_created_date(&self) -> (r: Timestamp) {
        self.created_at
    }

    fn add_fact(&mut self, fact: Fact) {
        self.facts.push(fact);
    }

    fn get_fact_count(&self) -> (r: usize) {
        self.facts.len()
    }

    fn get_all_facts(&self) -> (r: Vec<Fact>) {
        let mut all: Vec<Fact> = Vec::new();
        let mut i: usize = 0;
        while i < self.facts.len()
            invariant
                i <= self.facts@.len(),
                all@ == self.facts@.take(i as int),
            decreases self.facts@.len() - i,
        {
            all.push(self.facts[i].clone());
            assert(all@ =~= self.facts@.take(i + 1));
            i = i + 1;
        }
        assert(self.facts@.take(self.facts@.len() as int) =~= self.facts@);
        all
    }
}

} // verus!
