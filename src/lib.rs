//! Discovery of COM component registrations: filtering of candidate records,
//! a scan state machine over enumerated registry entries, and the merge of the
//! results of the two registry views into one mapping keyed by identifier.

pub mod types;
pub mod text;
pub mod filter;
pub mod objects;
pub mod merge;
pub mod scan;
pub mod usability;
pub mod report;
