//! Reward-accounting and position-lifecycle engine for a staking protocol.
//!
//! Users deposit a farming asset and receive a position record (amount plus a
//! reward-per-share checkpoint). A global accumulator drips a reward budget
//! per block; positions crystallize their pending share whenever they are
//! touched. A weekly splitter apportions a secondary "boosted" reward stream
//! across fixed time buckets weighted by a per-user energy metric. The
//! lifecycle module sequences stake / claim / compound / unstake / unbond
//! around hook extension points, as pure functions from state and event to
//! outcome: the host environment performs transfers and storage.

pub mod accumulator;
pub mod lifecycle;
pub mod math;
pub mod merge;
pub mod position;
pub mod weekly;
