//! Grading and aggregation pipeline for programming-assignment submissions.
use vstd::prelude::*;

pub mod collision;
pub mod fingerprint;
pub mod grader;
pub mod pipeline;
pub mod result;
pub mod suite_type;

verus! {

} // verus!
