//! Simulation core of a semiconductor-industry business game.
//!
//! The library advances a world of technology nodes, companies and market
//! segments one calendar month at a time: economic demand and pricing,
//! foundry capacity contracts and billing, a monthly tactics policy, a
//! quarterly beam-search planner, tape-out pipelines, time-boxed mod
//! effects, and campaign/tutorial state machines.

pub mod apportion;
pub mod campaign;
pub mod date;
pub mod domain;
pub mod econ;
pub mod effects;
pub mod ledger;
pub mod market;
pub mod numeric;
pub mod planner;
pub mod pipeline;
pub mod sim;
pub mod tactics;
pub mod tutorial;

use vstd::prelude::*;

verus! {

/// Default location of the local save database, used by the persistence host.
pub fn default_sqlite_url() -> (r: &'static str)
    ensures
        r@ == "sqlite://./saves/main.db"@,
{
    "sqlite://./saves/main.db"
}

} // verus!
