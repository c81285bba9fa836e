//! An in-process actor runtime core: actor identity, the mailbox loop's
//! lifecycle decisions, and the scheduler's registry of type-erased references.

pub mod id;
pub mod lifecycle;
pub mod scheduler;
