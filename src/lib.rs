//! Information-flow control: values carry a policy, and leave the program
//! only through a checkpoint that evaluates that policy against the context
//! of the release.
pub mod filter;
pub mod policy;
pub mod generic_policied;
pub mod beaverio;
