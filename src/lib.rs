//! Assembles vocabulary tests from a question bank.
//!
//! A raw selection request is normalized (`criteria`), turned into a cascade
//! of ever looser queries (`planner`, over `query`), and run against a
//! snapshot of the bank (`bank`) until a step matches a question. The chosen
//! questions are projected into their frozen test form (`materialize`) and
//! kept as an immutable test (`store`). `level` holds the fixed proficiency
//! tiers and their seeding; `models` the hand-authored quizzes.

pub mod bank;
pub mod criteria;
pub mod level;
pub mod materialize;
pub mod models;
pub mod planner;
pub mod query;
pub mod store;
