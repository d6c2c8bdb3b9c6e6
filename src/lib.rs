//! Update-reconciliation and installation engine for tracked addon projects.
use vstd::prelude::*;

pub mod text;
pub mod order;
pub mod model;
pub mod toc;
pub mod policy;
pub mod digest;
pub mod urls;
pub mod forge;
pub mod plan;
pub mod git;
pub mod dlls;
pub mod paths;
pub mod deploy;
pub mod session;
pub mod store;
