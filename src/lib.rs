//! A Leitner-box spaced-repetition scheduler.
//!
//! Facts climb through numbered boxes ("levels") as they are answered
//! correctly and fall back to the first box when answered wrongly. A fixed
//! review cycle says, for every day, which levels are due; the scheduler maps
//! a date onto that cycle and picks the due facts.
pub mod fact;
pub mod timestamp;
pub mod scheduler;
pub mod repository;

pub use fact::{Fact, FactView, SpacedRepeatable};
pub use repository::{FactRepository, InMemoryFactRepository};
pub use scheduler::{LeitnerSchedule, SpacedSchedule};
pub use timestamp::Timestamp;

