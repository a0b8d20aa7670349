use vstd::prelude::*;
use crate::condition::Condition;
use cosmwasm_std::{CosmosMsg, Empty};

verus! {

/// Declares `cosmwasm_std::CosmosMsg`, one action of a job. The library
/// carries it and never looks inside.
#[verifier::external_type_specification]
#[verifier::external_body]
#[verifier::reject_recursive_types(T)]
pub struct ExCosmosMsg<T>(CosmosMsg<T>);

/// Declares `cosmwasm_std::Empty`, which stands where actions have no custom
/// kind.
#[verifier::external_type_specification]
#[verifier::external_body]
pub struct ExEmpty(Empty);

/// Where a job stands in its life. `Pending` is where it begins; the other
/// two are final.
#[derive(Clone, Copy, Debug, PartialEq, Eq, Structural)]
pub enum JobStatus {
    Pending,
    Executed,
    Failed,
}

impl JobStatus {
    pub open spec fn is_final(self) -> bool {
        self != JobStatus::Pending
    }
}

/// A condition, and the actions to run once when it holds.
#[derive(Debug, PartialEq, Eq)]
pub struct Job {
    pub id: u64,
    pub owner: String,
    pub last_update_time: u64,
    pub name: String,
    pub status: JobStatus,
    pub condition: Condition,
    pub msgs: Vec<CosmosMsg>,
    pub reward: u128,
}

/// The account that acts for an owner.
#[derive(Debug, PartialEq, Eq)]
pub struct Account {
    pub owner: String,
    pub account: String,
}

/// The settings of the controller.
#[derive(Debug, PartialEq, Eq)]
pub struct Config {
    pub owner: String,
    pub warp_account_code_id: u64,
    pub minimum_reward: u128,
    pub creation_fee_percentage: u128,
    pub cancellation_fee_percentage: u128,
}

/// The counters of the controller.
#[derive(Clone, Copy, Debug, PartialEq, Eq, Structural)]
pub struct State {
    /// The id that the next job gets.
    pub current_job_id: u64,
}

} // verus!
