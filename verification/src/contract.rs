//! Contracts on the grid, as the chain records them.

use vstd::prelude::*;

verus! {

/// A contract for a workload on a node.
#[derive(Debug, PartialEq, Eq)]
pub struct NodeContract {
    pub contract_id: u64,
    /// Timestamp the object was created, in milliseconds.
    pub created_at: i64,
    pub deployment_data: String,
    pub deployment_hash: String,
    pub node_id: u32,
    pub number_of_public_ips: u32,
    pub resources_used: Option<Resources>,
    pub solution_provider_id: Option<u32>,
    pub state: ContractState,
    pub twin_id: u32,
}

/// A contract for a name.
#[derive(Debug, PartialEq, Eq)]
pub struct NameContract {
    pub contract_id: u64,
    /// Timestamp the object was created, in milliseconds.
    pub created_at: i64,
    pub solution_provider_id: Option<u32>,
    pub state: ContractState,
    pub twin_id: u32,
    pub name: String,
}

/// A contract for the rent of a whole node.
#[derive(Debug, PartialEq, Eq)]
pub struct RentContract {
    pub contract_id: u64,
    /// Timestamp the object was created, in milliseconds.
    pub created_at: i64,
    pub node_id: u32,
    pub solution_provider_id: Option<u32>,
    pub state: ContractState,
    pub twin_id: u32,
}

/// The resources that a node contract uses.
#[derive(Clone, Copy, Debug, PartialEq, Eq)]
pub struct Resources {
    pub cru: u64,
    pub hru: u64,
    pub mru: u64,
    pub sru: u64,
}

/// The state of a contract.
#[derive(Clone, Copy, Debug, PartialEq, Eq)]
pub enum ContractState {
    Created,
    GracePeriod,
    OutOfFunds,
    Deleted,
}

impl ContractState {
    /// The name of the state, as it is shown to a reader.
    pub open spec fn label_text(self) -> Seq<char> {
        match self {
            ContractState::Created => "Created"@,
            ContractState::GracePeriod => "Grace Period"@,
            ContractState::OutOfFunds => "Out of Funds"@,
            ContractState::Deleted => "Deleted"@,
        }
    }

    /// The name of the state, as it is shown to a reader.
    pub fn label(&self) -> (label: &'static str)
        ensures
            label@ == self.label_text(),
    {
        match self {
            ContractState::Created => "Created",
            ContractState::GracePeriod => "Grace Period",
            ContractState::OutOfFunds => "Out of Funds",
            ContractState::Deleted => "Deleted",
        }
    }
}

} // verus!
