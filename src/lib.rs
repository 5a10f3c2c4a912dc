//! Background task and transfer orchestration for a desktop software center:
//! byte-range planning for chunked downloads, the exclusive runner for
//! privileged package operations, and the registry of log followers.

pub mod follower;
pub mod keyed;
pub mod omactl;
pub mod packages;
pub mod repo_mgr;
pub mod text;
pub mod transfer;
pub mod utils;
