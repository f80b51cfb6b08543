//! Decision logic of a multi-platform packaging orchestrator: platform
//! selection, the install/build/collect sequence for each platform, and the
//! plan that gathers build output into a release tree.
pub mod collect;
pub mod layout;
pub mod platform;
pub mod release_tree;
pub mod session;
