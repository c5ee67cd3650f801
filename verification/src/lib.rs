use vstd::prelude::*;

pub mod admission;
pub mod authority;
pub mod callbacks;
pub mod clock;
pub mod config;
pub mod deadline;
pub mod dispatch;
pub mod drain;
pub mod error;
pub mod failure;
pub mod fixtures;
pub mod identity;
pub mod laws;
pub mod mode;
pub mod order;
pub mod payload;
pub mod recovery;
pub mod resume;
pub mod run;
pub mod scheduler;
pub mod slots;
pub mod stop;

verus! {
}
