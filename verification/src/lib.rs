//! A closed-loop controller that searches for a transcoder quality parameter
//! whose output fits a byte budget.
//!
//! The controller itself never launches a process or touches a file: it is a
//! state machine that tells its caller what to do next (run the merge step,
//! run a transcode at some quality, read the output size) and digests the
//! results.  The escalation step is computed exactly over integers in
//! `step`, backed by the multi-limb arithmetic in `limbs`.

pub mod controller;
pub mod limbs;
pub mod step;
