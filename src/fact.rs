//! Facts (flash cards) and the level state machine that moves them between
//! Leitner boxes.
use vstd::prelude::*;

verus! {

/// The lowest Leitner box, where every fact starts and where a wrong answer
/// sends it back.
pub const FIRST_LEVEL: u8 = 1;

/// The level reached by promoting a fact at `level`.
///
/// Growth is not capped at the schedule's number of levels: a fact above the
/// highest level of the cycle is simply never due again ("retired"). The one
/// bound is the width of the level counter, at which promotion saturates.
pub open spec fn promoted(level: u8) -> u8 {
    if level < u8::MAX {
        (level + 1) as u8
    } else {
        level
    }
}

/// The level reached by demoting a fact at `level`: always the first box,
/// not the one below.
pub open spec fn demoted(level: u8) -> u8 {
    FIRST_LEVEL
}

/// Anything that can be scheduled by spaced repetition: it has a numeric
/// level that can be increased, demoted back to the first level, and read.
pub trait SpacedRepeatable {
    /// The current level, as seen by contracts.
    spec fn spec_level(&self) -> u8;

    fn get_level(&self) -> (r: u8)
        ensures
            r == self.spec_level(),
    ;

    fn set_level(&mut self, level: u8)
        requires
            level >= FIRST_LEVEL,
        ensures
            final(self).spec_level() == level,
    ;

    /// Moves up one box (a correct answer).
    fn increase_level(&mut self)
        ensures
            final(self).spec_level() == promoted(old(self).spec_level()),
    {
        let level = self.get_level();
        if level < u8::MAX {
            self.set_level(level + 1);
        } else {
            self.set_level(level);
        }
    }

    /// Goes back to the first box, whatever the current one (a wrong answer).
    fn demote(&mut self)
        ensures
            final(self).spec_level() == demoted(old(self).spec_level()),
    {
        self.set_level(FIRST_LEVEL);
    }
}

/// One flash card: a question, its answer, and the box it sits in.
#[derive(Debug)]
pub struct Fact {
    pub question: String,
    pub answer: String,
    level: u8,
}

/// What a fact holds, as mathematical values.
pub struct FactView {
    pub question: Seq<char>,
    pub answer: Seq<char>,
    pub level: u8,
}

impl View for Fact {
    type V = FactView;

    closed spec fn view(&self) -> FactView {
        FactView { question: self.question@, answer: self.answer@, level: self.level }
    }
}

impl Fact {
    /// A fact is well formed when its level is at least the first one.
    pub closed spec fn wf(&self) -> bool {
        self.level >= FIRST_LEVEL
    }

    /// A fresh fact, in the first box.
    pub fn new(question: String, answer: String) -> (r: Fact)
        ensures
            r@ == (FactView { question: question@, answer: answer@, level: FIRST_LEVEL }),
            r.wf(),
    {
        Fact { question, answer, level: FIRST_LEVEL }
    }

    /// The same fact, placed in box `level`.
    pub fn with_level(self, level: u8) -> (r: Fact)
        requires
            level >= FIRST_LEVEL,
        ensures
            r@ == (FactView { level, ..self@ }),
            r.wf(),
    {
        let mut fact = self;
        fact.set_level(level);
        fact
    }

    /// The current level (the same as `get_level`, without the trait in scope).
    pub fn level(&self) -> (r: u8)
        ensures
            r == self@.level,
            r == self.spec_level(),
    {
        self.level
    }
}

impl SpacedRepeatable for Fact {
    closed spec fn spec_level(&self) -> u8 {
        self.level
    }

    fn get_level(&self) -> (r: u8) {
        self.level
    }

    fn set_level(&mut self, level: u8)
        ensures
            final(self)@ == (FactView { level, ..old(self)@ }),
            final(self).wf(),
    {
        self.level = level;
    }
}

impl Clone for Fact {
    fn clone(&self) -> (r: Fact)
        ensures
            r == *self,
            r@ == self@,
    {
        Fact { question: self.question.clone(), answer: self.answer.clone(), level: self.level }
    }
}

/// Promoting a fact and then demoting it leaves it in the first box, whatever
/// box it started in.
pub proof fn lemma_promote_then_demote(level: u8)
    requires
        level >= FIRST_LEVEL,
    ensures
        demoted(promoted(level)) == FIRST_LEVEL,
{
}

/// Promotion moves a fact up exactly one box (below the counter's limit).
pub proof fn lemma_promote_is_successor(level: u8)
    requires
        level >= FIRST_LEVEL,
        level < u8::MAX,
    ensures
        promoted(level) == level + 1,
        promoted(level) > level,
{
}

} // verus!
