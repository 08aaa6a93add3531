//! Walks a repository's commit history backward from the checked-out commit
//! by a user-supplied number of first-parent hops and selects the commit to
//! check out, insisting on a strictly linear history along the way.
//!
//! The library holds the decision logic: parsing the step-count argument,
//! choosing the walk direction, validating commit ids, and the backward walk
//! itself over commit data. Reading and mutating an actual repository is left
//! to a thin unverified shell around this crate.

pub mod args;
pub mod commit;
pub mod walk;
