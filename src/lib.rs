//! Inspection of Sender Policy Framework (SPF) records: a resolver that turns
//! a TXT record into a tree of terms, following `include:` and `redirect=`,
//! and a validator that checks the tree against the rules and limits of SPF.
use vstd::prelude::*;

pub mod checks;
pub mod detail;
pub mod dns;
pub mod error;
pub mod laws;
pub mod model;
pub mod resolver;
pub mod summary;
pub mod text;

verus! {

} // verus!
