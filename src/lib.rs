use vstd::prelude::*;

pub mod admission;
pub mod config;
pub mod router;
pub mod payment;
pub mod ledger;
pub mod summary;
pub mod worker;
